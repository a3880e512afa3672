//! What holds of the adapters, whatever the service gives them.
use vstd::prelude::*;

use crate::adapters::email;
use crate::adapters::mail;
use crate::adapters::mail::{BodyText, HeadersText};
use crate::adapters::mock;
use crate::adapters::raw;
use crate::adapters::raw::RawMessage;
use crate::adapters::telegram;
use crate::adapters::telegram::{TelegramMessage, TelegramUpdate};
use crate::id::Uuid;
use crate::text;
use crate::time;
use crate::time::Timestamp;
use crate::types::message;
use crate::types::{Channel, Message};

verus! {

// ---------------------------------------------------------------------------
// Accounts
// ---------------------------------------------------------------------------

/// The domain of an address is what stands behind its at sign.
pub proof fn the_domain_stands_behind_the_at_sign(user: Seq<char>, domain: Seq<char>)
    requires
        !user.contains('@'),
        !domain.contains('@'),
    ensures
        email::domain_of(user + seq!['@'] + domain) == domain,
{
    let s = user + seq!['@'] + domain;
    let n = user.len() as int;
    assert forall|i: int| 0 <= i < n implies #[trigger] s[i] != '@' by {
        assert(s[i] == user[i]);
    }
    assert(s[n] == '@');
    text::lemma_first_index(s, '@', n);
    let rest = s.skip(n + 1);
    assert(rest =~= domain);
    assert forall|i: int| 0 <= i < domain.len() implies #[trigger] rest[i] != '@' by {
        assert(rest[i] == domain[i]);
    }
    text::lemma_first_index(rest, '@', domain.len() as int);
    assert(rest.take(domain.len() as int) =~= domain);
}

/// The servers of an account are those of its domain: of Google and Microsoft the
/// ones that they run for all of their domains, of any other the ones that are
/// named after it. Mail is fetched and sent over the same ports everywhere.
pub proof fn servers_are_those_of_the_domain(domain: Seq<char>)
    ensures
        email::settings_for(domain).port == 993,
        email::settings_for(domain).smtp_port == 587,
        domain == "gmail.com"@ || domain == "googlemail.com"@ ==> {
            &&& email::settings_for(domain).host == "imap.gmail.com"@
            &&& email::settings_for(domain).smtp_host == "smtp.gmail.com"@
        },
        domain == "outlook.com"@ || domain == "hotmail.com"@ || domain == "live.com"@ ==> {
            &&& email::settings_for(domain).host == "outlook.office365.com"@
            &&& email::settings_for(domain).smtp_host == "smtp.office365.com"@
        },
        !(domain == "gmail.com"@ || domain == "googlemail.com"@ || domain == "outlook.com"@
            || domain == "hotmail.com"@ || domain == "live.com"@) ==> {
            &&& email::settings_for(domain).host == "imap."@ + domain
            &&& email::settings_for(domain).smtp_host == "smtp."@ + domain
        },
{
    reveal_strlit("gmail.com");
    reveal_strlit("googlemail.com");
    reveal_strlit("outlook.com");
    reveal_strlit("hotmail.com");
    reveal_strlit("live.com");
    assert("gmail.com"@.len() == 9 && "googlemail.com"@.len() == 14);
    assert("outlook.com"@.len() == 11 && "hotmail.com"@.len() == 11 && "live.com"@.len() == 8);
}

/// An adapter with servers of its own keeps them, whatever the label; one without
/// takes those of the label's domain.
pub proof fn own_servers_are_kept(a: email::EmailAdapter, label: Seq<char>)
    ensures
        a.imap_host matches Some(h) ==> {
            let s = email::connect_settings(a, label);
            &&& s.host == h@
            &&& s.port == a.imap_port
            &&& s.smtp_port == a.smtp_port
            &&& a.smtp_host matches Some(x) ==> s.smtp_host == x@
        },
        a.imap_host is None ==> email::connect_settings(a, label) == email::settings_for(
            email::domain_of(label),
        ),
{
}

/// Mails are asked for from the day of the last one on, or all of them.
pub proof fn mails_are_asked_for_from_a_day_on(since: Option<Timestamp>)
    ensures
        since is None ==> email::search_text(since) == "ALL"@,
        since matches Some(t) ==> email::search_text(since) == "SINCE "@ + time::imap_date_text(
            t@.0 as i64,
            t@.1 as u32,
        ),
{
}

/// Of the mails that were found the hundred newest are fetched, or all where there
/// are fewer; each of them is one that was found.
pub proof fn a_hundred_mails_are_fetched(r: Seq<u32>, uids: Seq<u32>, i: int)
    requires
        email::newest(r, uids),
        uids.len() <= usize::MAX,
        0 <= i < r.len(),
    ensures
        r.len() == if uids.len() < 100 {
            uids.len() as int
        } else {
            100
        },
        uids.contains(r[i]),
        forall|k: int|
            0 <= k < uids.len() ==> r.contains(#[trigger] uids[k]) || uids[k] <= r[i],
        forall|j: int| i < j < r.len() ==> #[trigger] r[j] <= r[i],
{
    let w = email::uid_weights(uids);
    let order = choose|order: Seq<usize>|
        #[trigger] text::heaviest_first(order, w) && r == order.take(
            email::fetched_count(uids.len()) as int,
        ).map_values(|i: usize| uids[i as int]);
    assert(order[i] < w.len());
    assert(r[i] == uids[order[i] as int]);
    assert forall|k: int| 0 <= k < uids.len() implies r.contains(#[trigger] uids[k]) || uids[k]
        <= r[i] by {
        email::newest_mails_come_first(r, uids, i, i, k);
    }
    assert forall|j: int| i < j < r.len() implies #[trigger] r[j] <= r[i] by {
        email::newest_mails_come_first(r, uids, i, j, 0);
    }
}

/// The numbers of the mails stand in the request one after the other, with a comma
/// between each two.
pub proof fn numbers_are_separated_by_commas(uids: Seq<u32>, next: u32)
    ensures
        uids.len() == 0 ==> email::comma_separated(uids.push(next)) == text::decimal(next as nat),
        uids.len() > 0 ==> email::comma_separated(uids.push(next)) == email::comma_separated(uids)
            + seq![','] + text::decimal(next as nat),
{
    reveal_strlit(",");
    assert(","@ =~= seq![',']);
    assert(uids.push(next).drop_last() =~= uids);
}

// ---------------------------------------------------------------------------
// Mails
// ---------------------------------------------------------------------------

/// A mail becomes a message with what its headers and its body say: the sender's
/// name and address, the identifier, the subject, both forms of the body, and the
/// date as its time.
pub proof fn a_mail_becomes_its_message(
    m: RawMessage,
    h: HeadersText,
    b: BodyText,
    uid: Option<u32>,
    now: Timestamp,
)
    requires
        mail::mail_read(m, h, b, uid, now),
    ensures
        m.channel == Channel::Email,
        h.message_id matches Some(x) ==> m.external_id@ == x,
        h.sender matches Some((Some(name), _)) ==> m.sender_name@ == name,
        h.sender matches Some((_, Some(address))) ==> m.sender_address@ == address,
        h.sender is None ==> m.sender_name@ == "Unknown"@ && m.sender_address@.len() == 0,
        message::optional_text(m.subject) == h.subject,
        message::optional_text(m.text) == b.text,
        message::optional_text(m.html) == b.html,
        h.date matches Some(d) ==> (time::valid_time(d as int, 0) ==> m.timestamp@ == (d as int, 0int)),
        h.date is None ==> m.timestamp == now,
{
}

/// A mail belongs to the conversation of the first mail that it refers to, else of
/// the one that it replies to, else it opens its own.
pub proof fn a_mail_belongs_to_its_conversation(
    m: RawMessage,
    h: HeadersText,
    b: BodyText,
    uid: Option<u32>,
    now: Timestamp,
)
    requires
        mail::mail_read(m, h, b, uid, now),
    ensures
        h.references matches Some(v) ==> (v.len() > 0 && mail::is_word(v[0])
            ==> message::optional_text(m.external_thread_id) == Some(v[0])),
        h.references is None ==> (h.in_reply_to matches Some(v) ==> (v.len() > 0
            ==> message::optional_text(m.external_thread_id) == Some(v[0]))),
        h.references is None && h.in_reply_to is None ==> (h.message_id matches Some(x)
            ==> message::optional_text(m.external_thread_id) == Some(x)),
{
    mail::mails_with_the_same_root_share_a_thread(h);
}

/// What is kept beside a mail tells where it belongs: its identifier, the mail that
/// it replies to, those that it refers to with a space between each two, and its
/// number in the mailbox.
pub proof fn a_mail_keeps_where_it_belongs(
    m: RawMessage,
    h: HeadersText,
    b: BodyText,
    uid: Option<u32>,
    now: Timestamp,
)
    requires
        mail::mail_read(m, h, b, uid, now),
    ensures
        h.message_id matches Some(x) ==> m.metadata@.contains(("message_id"@, x)),
        h.in_reply_to matches Some(v) ==> (v.len() > 0 ==> m.metadata@.contains(
            ("in_reply_to"@, v[0]),
        )),
        h.references matches Some(v) ==> (v.len() > 0 ==> m.metadata@.contains(
            ("references"@, mail::spaced(v)),
        )),
        uid matches Some(u) ==> m.metadata@.contains(("imap_uid"@, text::decimal(u as nat))),
{
    let all = m.metadata@;
    let a = seq![("message_id"@, mail::text_or(h.message_id, Seq::empty()))];
    let b = mail::optional_pair("in_reply_to"@, mail::first_text(h.in_reply_to));
    let c = mail::optional_pair("references"@, mail::all_texts(h.references));
    assert(all[0] == a[0]);
    if h.in_reply_to matches Some(v) && v.len() > 0 {
        assert(all[1] == b[0]);
    }
    if h.references matches Some(v) && v.len() > 0 {
        assert(all[1 + b.len() as int] == c[0]);
    }
    if let Some(u) = uid {
        assert(all[(1 + b.len() + c.len()) as int] == ("imap_uid"@, text::decimal(u as nat)));
    }
}

/// The texts of a list stand in their sum with a space between each two.
pub proof fn references_are_spaced(v: Seq<Seq<char>>, next: Seq<char>)
    ensures
        v.len() == 0 ==> mail::spaced(v.push(next)) == next,
        v.len() > 0 ==> mail::spaced(v.push(next)) == mail::spaced(v) + seq![' '] + next,
{
    reveal_strlit(" ");
    assert(" "@ =~= seq![' ']);
    assert(v.push(next).drop_last() =~= v);
}

/// Each file in a mail becomes an attachment, in order, with its name, its type
/// and subtype, and its size.
pub proof fn each_file_becomes_an_attachment(
    m: RawMessage,
    h: HeadersText,
    b: BodyText,
    uid: Option<u32>,
    now: Timestamp,
    i: int,
)
    requires
        mail::mail_read(m, h, b, uid, now),
        0 <= i < b.parts.len(),
    ensures
        m.attachments@.len() == b.parts.len(),
        b.parts[i].name matches Some(n) ==> m.attachments@[i].filename@ == n,
        b.parts[i].name is None ==> m.attachments@[i].filename@ == "unnamed"@,
        b.parts[i].content_type matches Some((main, Some(sub))) ==> m.attachments@[i].mime_type@
            == main + "/"@ + sub,
        b.parts[i].content_type is None ==> m.attachments@[i].mime_type@
            == "application/octet-stream"@,
        b.parts[i].size matches Some(n) ==> m.attachments@[i].size_bytes == n,
{
    assert(mail::part_read(m.attachments@[i], b.parts[i]));
}

/// Mails that can be read are read, in order, and no others.
pub proof fn readable_mails_are_read(fetched: Seq<mail::FetchedMail>, i: int)
    requires
        0 <= i < fetched.len(),
    ensures
        mail::readable_indices(fetched).contains(i) <==> mail::readable(fetched[i]),
        forall|a: int, b: int|
            0 <= a < b < mail::readable_indices(fetched).len() ==> #[trigger] mail::readable_indices(
                fetched,
            )[a] < #[trigger] mail::readable_indices(fetched)[b],
        forall|a: int|
            0 <= a < mail::readable_indices(fetched).len() ==> 0
                <= #[trigger] mail::readable_indices(fetched)[a] < fetched.len(),
    decreases fetched.len(),
{
    let rest = fetched.drop_last();
    let before = mail::readable_indices(rest);
    let all = mail::readable_indices(fetched);
    if rest.len() > 0 {
        readable_mails_are_read(
            rest,
            if i < rest.len() {
                i
            } else {
                0
            },
        );
    } else {
        assert(before.len() == 0);
    }
    if i < rest.len() {
        assert(rest[i] == fetched[i]);
        if before.contains(i) {
            let k = choose|k: int| 0 <= k < before.len() && before[k] == i;
            assert(all[k] == i);
        }
        if all.contains(i) {
            let k = choose|k: int| 0 <= k < all.len() && all[k] == i;
            assert(before[k] == i);
        }
    } else {
        if mail::readable(fetched[i]) {
            assert(all[all.len() - 1] == i);
        } else if all.contains(i) {
            let k = choose|k: int| 0 <= k < all.len() && all[k] == i;
            assert(before[k] == i);
        }
    }
}

// ---------------------------------------------------------------------------
// Telegram
// ---------------------------------------------------------------------------

/// An update becomes a message with what it says: who sent it, in which chat, what
/// it says and when.
pub proof fn an_update_becomes_its_message(
    r: RawMessage,
    u: TelegramUpdate,
    m: TelegramMessage,
    now: Timestamp,
)
    requires
        telegram::update_read(r, u, m, now),
    ensures
        r.channel == Channel::Telegram,
        r.external_id@ == text::decimal_int(m.message_id as int),
        message::optional_text(r.external_thread_id) == Some(
            text::decimal_int(m.chat.id as int),
        ),
        message::optional_text(r.text) == message::optional_text(m.text),
        r.html is None,
        r.subject is None,
        r.attachments@.len() == 0,
        time::valid_time(m.date as int, 0) ==> r.timestamp@ == (m.date as int, 0int),
        r.metadata@.contains(("chat_id"@, text::decimal_int(m.chat.id as int))),
        r.metadata@.contains(("chat_type"@, m.chat.chat_type@)),
        r.metadata@.contains(("update_id"@, text::decimal_int(u.update_id as int))),
        m.chat.title matches Some(t) ==> r.metadata@.contains(("chat_title"@, t@)),
        m.from matches Some(user) ==> {
            &&& user.last_name is None ==> r.sender_name@ == user.first_name@
            &&& user.last_name matches Some(l) ==> r.sender_name@ == user.first_name@ + seq![' ']
                + l@
            &&& user.username matches Some(n) ==> r.sender_address@ == n@
            &&& user.username is None ==> r.sender_address@ == text::decimal_int(user.id as int)
        },
        m.from is None ==> r.sender_name@ == "Unknown"@ && r.sender_address@.len() == 0,
{
    reveal_strlit(" ");
    assert(" "@ =~= seq![' ']);
    let all = r.metadata@;
    assert(all[0] == ("chat_id"@, text::decimal_int(m.chat.id as int)));
    assert(all[1] == ("chat_type"@, m.chat.chat_type@));
    assert(all[2] == ("update_id"@, text::decimal_int(u.update_id as int)));
    if let Some(t) = m.chat.title {
        assert(all[3] == ("chat_title"@, t@));
    }
    if let Some(user) = m.from {
        if let Some(l) = user.last_name {
            assert(r.sender_name@ =~= user.first_name@ + seq![' '] + l@);
        } else {
            assert(r.sender_name@ =~= user.first_name@);
        }
    }
}

/// Each update with a message that was sent since then is read, in order, and no
/// other.
pub proof fn updates_with_messages_are_read(
    updates: Seq<TelegramUpdate>,
    since: Option<Timestamp>,
    now: Timestamp,
    i: int,
)
    requires
        0 <= i < updates.len(),
    ensures
        telegram::with_message(updates, since, now).contains(i) <==> updates[i].message is Some
            && (since matches Some(t) ==> !time::later(
            t@,
            telegram::sent_at(updates[i].message->0, now),
        )),
        forall|a: int, b: int|
            0 <= a < b < telegram::with_message(updates, since, now).len()
                ==> #[trigger] telegram::with_message(updates, since, now)[a]
                < #[trigger] telegram::with_message(updates, since, now)[b],
        forall|a: int|
            0 <= a < telegram::with_message(updates, since, now).len() ==> 0
                <= #[trigger] telegram::with_message(updates, since, now)[a] < updates.len(),
    decreases updates.len(),
{
    let rest = updates.drop_last();
    let before = telegram::with_message(rest, since, now);
    let all = telegram::with_message(updates, since, now);
    if rest.len() > 0 {
        updates_with_messages_are_read(
            rest,
            since,
            now,
            if i < rest.len() {
                i
            } else {
                0
            },
        );
    } else {
        assert(before.len() == 0);
    }
    if i < rest.len() {
        assert(rest[i] == updates[i]);
        if before.contains(i) {
            let k = choose|k: int| 0 <= k < before.len() && before[k] == i;
            assert(all[k] == i);
        }
        if all.contains(i) {
            let k = choose|k: int| 0 <= k < all.len() && all[k] == i;
            assert(before[k] == i);
        }
    } else {
        if telegram::brings_message(updates[i], since, now) {
            assert(all[all.len() - 1] == i);
        } else if all.contains(i) {
            let k = choose|k: int| 0 <= k < all.len() && all[k] == i;
            assert(before[k] == i);
        }
    }
}

/// After an update was seen, the service is asked for those behind it: from the
/// next number on.
pub proof fn updates_are_asked_for_behind_the_last(last: Option<i64>)
    ensures
        last matches Some(n) ==> telegram::update_params(last).contains(
            ("offset"@, text::decimal_int(n + 1)),
        ),
        last is None ==> forall|i: int|
            0 <= i < telegram::update_params(last).len() ==> (#[trigger] telegram::update_params(
                last,
            )[i]).0 != "offset"@,
        telegram::update_params(last).contains(("allowed_updates"@, "[\"message\"]"@)),
{
    reveal_strlit("offset");
    reveal_strlit("timeout");
    reveal_strlit("allowed_updates");
    assert("offset"@.len() == 6 && "timeout"@.len() == 7 && "allowed_updates"@.len() == 15);
    let all = telegram::update_params(last);
    assert(all[1] == ("allowed_updates"@, "[\"message\"]"@));
    if let Some(n) = last {
        assert(all[2] == ("offset"@, text::decimal_int(n + 1)));
    }
}

/// A method of the service is called under the bot's own address.
pub proof fn a_method_is_called_under_the_bots_address(token: Seq<char>, method: Seq<char>)
    ensures
        telegram::method_url(token, method) == "https://api.telegram.org/bot"@ + token + seq!['/']
            + method,
{
    reveal_strlit("/");
    assert("/"@ =~= seq!['/']);
}

// ---------------------------------------------------------------------------
// The adapter of tests
// ---------------------------------------------------------------------------

/// A message more is fetched behind those before it where it came after the time
/// that is asked for, or no time is.
pub proof fn a_message_more_is_fetched(
    messages: Seq<RawMessage>,
    next: RawMessage,
    since: Option<Timestamp>,
)
    ensures
        mock::new_messages(messages.push(next), since) == mock::new_messages(messages, since)
            + if since matches Some(t) && !time::later(next.timestamp@, t@) {
            Seq::<int>::empty()
        } else {
            seq![messages.len() as int]
        },
{
    assert(messages.push(next).drop_last() =~= messages);
    let before = mock::new_messages(messages, since);
    assert(before + Seq::<int>::empty() =~= before);
    assert(before.push(messages.len() as int) =~= before + seq![messages.len() as int]);
}

// ---------------------------------------------------------------------------
// Messages
// ---------------------------------------------------------------------------

/// A message that was taken in keeps what came: its channel, what it says, its
/// files, its time and what was kept beside it. It is unread, not archived, and
/// waits to be classified.
pub proof fn a_message_keeps_what_came(m: Message, r: RawMessage, sender_id: Uuid, thread_id: Uuid)
    requires
        raw::normalized(m, r, sender_id, thread_id),
    ensures
        m.channel == r.channel,
        m.sender_id == sender_id,
        m.thread_id == thread_id,
        m.content.text == r.text,
        m.content.html == r.html,
        m.content.subject == r.subject,
        m.timestamp == r.timestamp,
        m.metadata == r.metadata,
        !m.is_read,
        !m.is_archived,
        m.priority is None,
        m.category is None,
        m.content.attachments@.len() == r.attachments@.len(),
        forall|i: int|
            #![trigger m.content.attachments@[i]]
            0 <= i < r.attachments@.len() ==> {
                let a = m.content.attachments@[i];
                &&& a.filename@ == r.attachments@[i].filename@
                &&& a.mime_type@ == r.attachments@[i].mime_type@
                &&& a.size_bytes == r.attachments@[i].size_bytes
                &&& a.local_path is None
            },
{
    let kept = message::attachment_texts(m.content.attachments@);
    let came = raw::received_all(r.attachments@);
    assert(kept.len() == came.len());
    assert forall|i: int|
        #![trigger m.content.attachments@[i]]
        0 <= i < r.attachments@.len() implies {
        let a = m.content.attachments@[i];
        &&& a.filename@ == r.attachments@[i].filename@
        &&& a.mime_type@ == r.attachments@[i].mime_type@
        &&& a.size_bytes == r.attachments@[i].size_bytes
        &&& a.local_path is None
    } by {
        assert(kept[i] == came[i]);
    }
}

} // verus!
