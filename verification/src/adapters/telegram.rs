//! Telegram, through its bot interface.
use vstd::prelude::*;
use vstd::string::StringExecFns;

use crate::adapters::raw;
use crate::adapters::raw::{is_not_before, RawMessage};
use crate::error::{joined, CoreError};
use crate::text;
use crate::text::{copy_option, copy_or_empty, decimal_i64};
use crate::text_map;
use crate::text_map::TextMap;
use crate::time;
use crate::time::Timestamp;
use crate::types::message;
use crate::types::{Channel, MessageContent};

verus! {

/// Adapter for Telegram.
#[derive(Debug)]
pub struct TelegramAdapter {
    pub bot_token: Option<String>,
    pub last_update_id: Option<i64>,
}

/// An answer of the service.
#[derive(Debug)]
pub struct TelegramResponse<T> {
    pub ok: bool,
    pub result: Option<T>,
    pub description: Option<String>,
}

/// A user of the service.
#[derive(Debug)]
pub struct TelegramUser {
    pub id: i64,
    pub is_bot: bool,
    pub first_name: String,
    pub last_name: Option<String>,
    pub username: Option<String>,
}

/// Something new.
#[derive(Debug)]
pub struct TelegramUpdate {
    pub update_id: i64,
    pub message: Option<TelegramMessage>,
}

/// A message.
#[derive(Debug)]
pub struct TelegramMessage {
    pub message_id: i64,
    pub from: Option<TelegramUser>,
    pub chat: TelegramChat,
    pub date: i64,
    pub text: Option<String>,
}

/// A conversation.
#[derive(Debug)]
pub struct TelegramChat {
    pub id: i64,
    pub chat_type: String,
    pub title: Option<String>,
}

/// The address under which a method of the service is called.
pub open spec fn method_url(token: Seq<char>, method: Seq<char>) -> Seq<char> {
    "https://api.telegram.org/bot"@ + token + "/"@ + method
}

/// `e` is the error of an adapter that is not connected.
pub open spec fn is_not_connected(e: CoreError) -> bool {
    e matches CoreError::Connection(m) && m@ == "not connected: no bot token"@
}

/// The description of a failure, after what failed.
pub open spec fn failure_text(what: Seq<char>, description: Option<String>) -> Seq<char> {
    what + text::text_or_empty(description)
}

/// The parameters of a request for what is new: those after the last update
/// that was seen.
pub open spec fn update_params(last: Option<i64>) -> Seq<(Seq<char>, Seq<char>)> {
    seq![("timeout"@, "5"@), ("allowed_updates"@, "[\"message\"]"@)] + match last {
        Some(n) => seq![("offset"@, text::decimal_int(n + 1))],
        None => Seq::empty(),
    }
}

impl TelegramAdapter {
    /// An adapter that is not connected.
    pub fn new() -> (r: TelegramAdapter)
        ensures
            r.bot_token is None,
            r.last_update_id is None,
    {
        TelegramAdapter { bot_token: None, last_update_id: None }
    }

    /// The address under which a method is called.
    pub fn api_url(&self, method: &str) -> (r: Result<String, CoreError>)
        ensures
            match self.bot_token {
                Some(t) => r is Ok && r->Ok_0@ == method_url(t@, method@),
                None => r is Err && is_not_connected(r->Err_0),
            },
    {
        match &self.bot_token {
            Some(token) => {
                let mut url = joined("https://api.telegram.org/bot", token.as_str());
                url.append("/");
                url.append(method);
                Ok(url)
            },
            None => Err(CoreError::Connection("not connected: no bot token".to_owned())),
        }
    }

    /// Takes over the token: the address under which it is tried.
    pub fn begin_connect(&mut self, token: &str) -> (r: Result<String, CoreError>)
        ensures
            final(self).bot_token matches Some(t) && t@ == token@,
            final(self).last_update_id == old(self).last_update_id,
            r is Ok && r->Ok_0@ == method_url(token@, "getMe"@),
    {
        self.bot_token = Some(token.to_owned());
        self.api_url("getMe")
    }

    /// The bot that the service says the token is for.
    pub fn check_me(resp: TelegramResponse<TelegramUser>) -> (r: Result<TelegramUser, CoreError>)
        ensures
            if !resp.ok {
                r is Err && (r->Err_0 matches CoreError::Auth(m) && m@ == failure_text(
                    "Telegram getMe failed: "@,
                    resp.description,
                ))
            } else {
                match resp.result {
                    Some(u) => r is Ok && r->Ok_0 == u,
                    None => r is Err && (r->Err_0 matches CoreError::Auth(m) && m@
                        == "Telegram getMe returned no result"@),
                }
            },
    {
        if !resp.ok {
            let d = copy_or_empty(&resp.description);
            return Err(CoreError::Auth(joined("Telegram getMe failed: ", d.as_str())));
        }
        match resp.result {
            Some(u) => Ok(u),
            None => Err(CoreError::Auth("Telegram getMe returned no result".to_owned())),
        }
    }

    /// The parameters of a request for what is new.
    pub fn fetch_params(&self) -> (r: Vec<(String, String)>)
        requires
            self.last_update_id != Some(i64::MAX),
        ensures
            text_map::pairs_texts(r@) == update_params(self.last_update_id),
    {
        let mut params: Vec<(String, String)> = Vec::new();
        params.push(("timeout".to_owned(), "5".to_owned()));
        params.push(("allowed_updates".to_owned(), "[\"message\"]".to_owned()));
        if let Some(n) = self.last_update_id {
            params.push(("offset".to_owned(), decimal_i64(n + 1)));
        }
        proof {
            assert(text_map::pairs_texts(params@) =~= update_params(self.last_update_id));
        }
        params
    }

    /// The text of a reply, and the address under which it is sent.
    pub fn reply_plan(&self, content: &MessageContent) -> (r: Result<(String, String), CoreError>)
        ensures
            match self.bot_token {
                None => r is Err && is_not_connected(r->Err_0),
                Some(t) => match content.text {
                    None => r is Err && (r->Err_0 matches CoreError::InvalidInput(m) && m@
                        == "message text is required for Telegram"@),
                    Some(x) => r is Ok && r->Ok_0.0@ == method_url(t@, "sendMessage"@)
                        && r->Ok_0.1@ == x@,
                },
            },
    {
        let url = match self.api_url("sendMessage") {
            Ok(u) => u,
            Err(e) => return Err(e),
        };
        match &content.text {
            Some(t) => Ok((url, t.clone())),
            None => Err(
                CoreError::InvalidInput("message text is required for Telegram".to_owned()),
            ),
        }
    }

    /// Whether a reply was sent.
    pub fn check_sent(ok: bool, description: &Option<String>) -> (r: Result<(), CoreError>)
        ensures
            r is Ok <==> ok,
            r is Err ==> (r->Err_0 matches CoreError::Channel(m) && m@ == failure_text(
                "sendMessage failed: "@,
                *description,
            )),
    {
        if ok {
            Ok(())
        } else {
            let d = copy_or_empty(description);
            Err(CoreError::Channel(joined("sendMessage failed: ", d.as_str())))
        }
    }

    /// Forgets the token and what was seen.
    pub fn disconnect(&mut self) -> (r: Result<(), CoreError>)
        ensures
            r is Ok,
            final(self).bot_token is None,
            final(self).last_update_id is None,
    {
        self.bot_token = None;
        self.last_update_id = None;
        Ok(())
    }

    /// The channel that the adapter serves.
    pub fn channel_type(&self) -> (r: Channel)
        ensures
            r == Channel::Telegram,
    {
        Channel::Telegram
    }
}

// ---------------------------------------------------------------------------
// What becomes of what is new
// ---------------------------------------------------------------------------

/// The name of a sender: the first name, and the last where there is one.
pub open spec fn sender_name(from: Option<TelegramUser>) -> Seq<char> {
    match from {
        Some(u) => u.first_name@ + match u.last_name {
            Some(l) => " "@ + l@,
            None => Seq::empty(),
        },
        None => "Unknown"@,
    }
}

/// The address of a sender: the user name, else the number.
pub open spec fn sender_address(from: Option<TelegramUser>) -> Seq<char> {
    match from {
        Some(u) => match u.username {
            Some(n) => n@,
            None => text::decimal_int(u.id as int),
        },
        None => Seq::empty(),
    }
}

/// The metadata of a message.
pub open spec fn update_metadata(u: TelegramUpdate, m: TelegramMessage) -> Seq<
    (Seq<char>, Seq<char>),
> {
    seq![
        ("chat_id"@, text::decimal_int(m.chat.id as int)),
        ("chat_type"@, m.chat.chat_type@),
        ("update_id"@, text::decimal_int(u.update_id as int)),
    ] + match m.chat.title {
        Some(t) => seq![("chat_title"@, t@)],
        None => Seq::empty(),
    }
}

/// `r` is what becomes of the message of an update. `now` stands in for a date
/// that cannot be told.
pub open spec fn update_read(
    r: RawMessage,
    u: TelegramUpdate,
    m: TelegramMessage,
    now: Timestamp,
) -> bool {
    &&& r.external_id@ == text::decimal_int(m.message_id as int)
    &&& r.channel == Channel::Telegram
    &&& message::optional_text(r.external_thread_id) == Some(text::decimal_int(m.chat.id as int))
    &&& r.sender_name@ == sender_name(m.from)
    &&& r.sender_address@ == sender_address(m.from)
    &&& message::optional_text(r.text) == message::optional_text(m.text)
    &&& r.html is None
    &&& r.subject is None
    &&& r.attachments@.len() == 0
    &&& r.timestamp@ == sent_at(m, now)
    &&& r.metadata@ == update_metadata(u, m)
    &&& r.metadata.well_formed()
}

fn write_sender_name(from: &Option<TelegramUser>) -> (r: String)
    ensures
        r@ == sender_name(*from),
{
    match from {
        Some(u) => {
            let mut name = u.first_name.clone();
            if let Some(l) = &u.last_name {
                name.append(joined(" ", l.as_str()).as_str());
            } else {
                proof {
                    assert(name@ =~= u.first_name@ + Seq::empty());
                }
            }
            name
        },
        None => "Unknown".to_owned(),
    }
}

fn write_sender_address(from: &Option<TelegramUser>) -> (r: String)
    ensures
        r@ == sender_address(*from),
{
    match from {
        Some(u) => match &u.username {
            Some(n) => n.clone(),
            None => decimal_i64(u.id),
        },
        None => {
            let r = String::new();
            proof {
                assert(r@ =~= Seq::empty());
            }
            r
        },
    }
}

proof fn lemma_metadata_keys(u: TelegramUpdate, m: TelegramMessage)
    ensures
        text_map::distinct_keys(update_metadata(u, m)),
{
    reveal_strlit("chat_id");
    reveal_strlit("chat_type");
    reveal_strlit("update_id");
    reveal_strlit("chat_title");
    assert("chat_id"@.len() == 7);
    assert("chat_type"@.len() == 9 && "chat_type"@[0] == 'c');
    assert("update_id"@.len() == 9 && "update_id"@[0] == 'u');
    assert("chat_title"@.len() == 10);
}

/// The message that an update becomes.
pub fn update_to_raw(u: &TelegramUpdate, m: &TelegramMessage, now: Timestamp) -> (r: RawMessage)
    ensures
        update_read(r, *u, *m, now),
{
    let timestamp = match Timestamp::new(m.date, 0) {
        Some(t) => t,
        None => now,
    };
    let mut pairs: Vec<(String, String)> = Vec::new();
    pairs.push(("chat_id".to_owned(), decimal_i64(m.chat.id)));
    pairs.push(("chat_type".to_owned(), m.chat.chat_type.clone()));
    pairs.push(("update_id".to_owned(), decimal_i64(u.update_id)));
    if let Some(t) = &m.chat.title {
        pairs.push(("chat_title".to_owned(), t.clone()));
    }
    proof {
        lemma_metadata_keys(*u, *m);
        assert(text_map::pairs_texts(pairs@) =~= update_metadata(*u, *m));
    }
    RawMessage {
        external_id: decimal_i64(m.message_id),
        channel: Channel::Telegram,
        external_thread_id: Some(decimal_i64(m.chat.id)),
        sender_name: write_sender_name(&m.from),
        sender_address: write_sender_address(&m.from),
        text: copy_option(&m.text),
        html: None,
        subject: None,
        attachments: Vec::new(),
        timestamp,
        metadata: TextMap::from_pairs(pairs),
    }
}

/// When the message of an update was sent. `now` stands in for a date that cannot
/// be told.
pub open spec fn sent_at(m: TelegramMessage, now: Timestamp) -> (int, int) {
    if time::valid_time(m.date as int, 0) {
        (m.date as int, 0int)
    } else {
        now@
    }
}

/// The update holds a message that was sent not before `since`.
pub open spec fn brings_message(
    u: TelegramUpdate,
    since: Option<Timestamp>,
    now: Timestamp,
) -> bool {
    u.message matches Some(m) && raw::not_before(sent_at(m, now), since)
}

/// The indices of the updates that hold a message sent not before `since`, in
/// order.
pub open spec fn with_message(
    updates: Seq<TelegramUpdate>,
    since: Option<Timestamp>,
    now: Timestamp,
) -> Seq<int>
    decreases updates.len(),
{
    if updates.len() == 0 {
        Seq::empty()
    } else {
        let before = with_message(updates.drop_last(), since, now);
        if brings_message(updates.last(), since, now) {
            before.push(updates.len() - 1)
        } else {
            before
        }
    }
}

/// `v` holds what becomes of the updates that hold a message sent not before
/// `since`, in order.
pub open spec fn updates_read(
    v: Seq<RawMessage>,
    updates: Seq<TelegramUpdate>,
    since: Option<Timestamp>,
    now: Timestamp,
) -> bool {
    let indices = with_message(updates, since, now);
    &&& v.len() == indices.len()
    &&& forall|i: int|
        0 <= i < v.len() ==> update_read(
            #[trigger] v[i],
            updates[indices[i]],
            updates[indices[i]].message->0,
            now,
        )
}

/// The indices of the updates that are taken are indices of updates that hold
/// such a message.
proof fn lemma_with_message(
    updates: Seq<TelegramUpdate>,
    since: Option<Timestamp>,
    now: Timestamp,
)
    ensures
        forall|i: int|
            0 <= i < with_message(updates, since, now).len() ==> 0 <= #[trigger] with_message(
                updates,
                since,
                now,
            )[i] < updates.len() && brings_message(
                updates[with_message(updates, since, now)[i]],
                since,
                now,
            ),
    decreases updates.len(),
{
    if updates.len() > 0 {
        let all = with_message(updates, since, now);
        let before = with_message(updates.drop_last(), since, now);
        lemma_with_message(updates.drop_last(), since, now);
        assert forall|i: int| 0 <= i < all.len() implies 0 <= #[trigger] all[i] < updates.len()
            && brings_message(updates[all[i]], since, now) by {
            if i < before.len() {
                assert(all[i] == before[i]);
                assert(updates.drop_last()[before[i]] == updates[before[i]]);
            }
        }
    }
}

/// The messages of what is new that were sent not before `since`. An answer that
/// is no success is an error; one without a result holds nothing.
pub fn fetch_messages(
    resp: &TelegramResponse<Vec<TelegramUpdate>>,
    since: Option<Timestamp>,
    now: Timestamp,
) -> (r: Result<Vec<RawMessage>, CoreError>)
    ensures
        if !resp.ok {
            r is Err && (r->Err_0 matches CoreError::Channel(m) && m@ == failure_text(
                "getUpdates failed: "@,
                resp.description,
            ))
        } else {
            r is Ok && updates_read(
                r->Ok_0@,
                match resp.result {
                    Some(v) => v@,
                    None => Seq::empty(),
                },
                since,
                now,
            )
        },
{
    if !resp.ok {
        let d = copy_or_empty(&resp.description);
        return Err(CoreError::Channel(joined("getUpdates failed: ", d.as_str())));
    }
    let mut out: Vec<RawMessage> = Vec::new();
    if let Some(updates) = &resp.result {
        proof {
            assert(updates@.take(0) =~= Seq::empty());
        }
        for i in 0..updates.len()
            invariant
                updates_read(out@, updates@.take(i as int), since, now),
        {
            let ghost before = out@;
            let ghost shorter = updates@.take(i as int);
            let ghost longer = updates@.take(i + 1);
            proof {
                assert(longer.drop_last() =~= shorter);
                assert(longer.last() == updates@[i as int]);
                lemma_with_message(shorter, since, now);
            }
            if let Some(m) = &updates[i].message {
                let message = update_to_raw(&updates[i], m, now);
                if is_not_before(&message.timestamp, &since) {
                    out.push(message);
                }
            }
            proof {
                let some = with_message(shorter, since, now);
                let all = with_message(longer, since, now);
                assert forall|k: int| 0 <= k < out@.len() implies update_read(
                    #[trigger] out@[k],
                    longer[all[k]],
                    longer[all[k]].message->0,
                    now,
                ) by {
                    if k < before.len() {
                        assert(out@[k] == before[k]);
                        assert(all[k] == some[k]);
                        assert(longer[some[k]] == shorter[some[k]]);
                    }
                }
            }
        }
        proof {
            assert(updates@.take(updates@.len() as int) =~= updates@);
        }
    }
    Ok(out)
}

// ---------------------------------------------------------------------------
// Laws
// ---------------------------------------------------------------------------

/// No message that is read was sent before `since`.
pub proof fn nothing_from_before_is_read(
    v: Seq<RawMessage>,
    updates: Seq<TelegramUpdate>,
    since: Option<Timestamp>,
    now: Timestamp,
    i: int,
)
    requires
        updates_read(v, updates, since, now),
        0 <= i < v.len(),
    ensures
        raw::not_before(v[i].timestamp@, since),
{
    lemma_with_message(updates, since, now);
    let k = with_message(updates, since, now)[i];
    assert(update_read(v[i], updates[k], updates[k].message->0, now));
}

} // verus!
