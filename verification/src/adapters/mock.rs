//! An adapter that keeps everything in memory.
use vstd::prelude::*;

use crate::adapters::raw;
use crate::adapters::raw::RawMessage;
use crate::error::CoreError;
use crate::time;
use crate::time::Timestamp;
use crate::types::{Channel, MessageContent};

verus! {

/// An adapter for trials, which gives the messages that it was given, keeps the
/// replies, and fails where it is told to.
#[derive(Debug)]
pub struct MockAdapter {
    pub messages: Vec<RawMessage>,
    pub sent_replies: Vec<SentReply>,
    pub connected: bool,
    pub channel: Channel,
    pub fail_connect: bool,
    pub fail_fetch: bool,
    pub fail_send: bool,
}

/// A reply that was sent.
#[derive(Debug)]
pub struct SentReply {
    pub thread_id: String,
    pub content: MessageContent,
    pub sent_at: Timestamp,
}

/// Whether a message came after `since`.
pub open spec fn is_new(m: RawMessage, since: Option<Timestamp>) -> bool {
    match since {
        Some(t) => time::later(m.timestamp@, t@),
        None => true,
    }
}

/// The indices of the messages that came after `since`, in order.
pub open spec fn new_messages(messages: Seq<RawMessage>, since: Option<Timestamp>) -> Seq<int>
    decreases messages.len(),
{
    if messages.len() == 0 {
        Seq::empty()
    } else {
        let before = new_messages(messages.drop_last(), since);
        if is_new(messages.last(), since) {
            before.push(messages.len() - 1)
        } else {
            before
        }
    }
}

proof fn lemma_new_messages(messages: Seq<RawMessage>, since: Option<Timestamp>)
    ensures
        forall|i: int|
            0 <= i < new_messages(messages, since).len() ==> 0 <= #[trigger] new_messages(
                messages,
                since,
            )[i] < messages.len(),
    decreases messages.len(),
{
    if messages.len() > 0 {
        let before = new_messages(messages.drop_last(), since);
        lemma_new_messages(messages.drop_last(), since);
        assert forall|i: int| 0 <= i < new_messages(messages, since).len() implies 0
            <= #[trigger] new_messages(messages, since)[i] < messages.len() by {
            if i < before.len() {
                assert(new_messages(messages, since)[i] == before[i]);
            }
        }
    }
}

/// `v` holds copies of the messages that came after `since`, in order.
pub open spec fn fetched(
    v: Seq<RawMessage>,
    messages: Seq<RawMessage>,
    since: Option<Timestamp>,
) -> bool {
    &&& v.len() == new_messages(messages, since).len()
    &&& forall|i: int|
        0 <= i < v.len() ==> raw::same_raw(
            #[trigger] v[i],
            messages[new_messages(messages, since)[i]],
        )
}

impl MockAdapter {
    /// An adapter without messages, for Telegram.
    pub fn new() -> (r: MockAdapter)
        ensures
            r.messages@.len() == 0,
            r.sent_replies@.len() == 0,
            !r.connected,
            r.channel == Channel::Telegram,
            !r.fail_connect,
            !r.fail_fetch,
            !r.fail_send,
    {
        MockAdapter {
            messages: Vec::new(),
            sent_replies: Vec::new(),
            connected: false,
            channel: Channel::Telegram,
            fail_connect: false,
            fail_fetch: false,
            fail_send: false,
        }
    }

    /// The adapter, for another channel.
    pub fn with_channel(self, channel: Channel) -> (r: MockAdapter)
        ensures
            r == (MockAdapter { channel, ..self }),
    {
        MockAdapter { channel, ..self }
    }

    /// Adds a message.
    pub fn add_message(&mut self, msg: RawMessage)
        ensures
            final(self).messages@ == old(self).messages@.push(msg),
            *final(self) == (MockAdapter { messages: final(self).messages, ..*old(self) }),
    {
        self.messages.push(msg);
    }

    /// Adds messages.
    pub fn add_messages(&mut self, msgs: Vec<RawMessage>)
        ensures
            final(self).messages@ == old(self).messages@ + msgs@,
            *final(self) == (MockAdapter { messages: final(self).messages, ..*old(self) }),
    {
        let mut msgs = msgs;
        self.messages.append(&mut msgs);
    }

    /// The replies that were sent.
    pub fn sent_replies(&self) -> (r: &Vec<SentReply>)
        ensures
            *r == self.sent_replies,
    {
        &self.sent_replies
    }

    /// Whether the adapter is connected.
    pub fn is_connected(&self) -> (r: bool)
        ensures
            r == self.connected,
    {
        self.connected
    }

    /// Makes connecting fail, or not.
    pub fn set_fail_connect(&mut self, fail: bool)
        ensures
            *final(self) == (MockAdapter { fail_connect: fail, ..*old(self) }),
    {
        self.fail_connect = fail;
    }

    /// Makes fetching fail, or not.
    pub fn set_fail_fetch(&mut self, fail: bool)
        ensures
            *final(self) == (MockAdapter { fail_fetch: fail, ..*old(self) }),
    {
        self.fail_fetch = fail;
    }

    /// Makes sending fail, or not.
    pub fn set_fail_send(&mut self, fail: bool)
        ensures
            *final(self) == (MockAdapter { fail_send: fail, ..*old(self) }),
    {
        self.fail_send = fail;
    }

    /// Takes all messages away.
    pub fn clear_messages(&mut self)
        ensures
            final(self).messages@.len() == 0,
            *final(self) == (MockAdapter { messages: final(self).messages, ..*old(self) }),
    {
        self.messages.clear();
    }

    /// Connects.
    pub fn connect(&mut self) -> (r: Result<(), CoreError>)
        ensures
            if old(self).fail_connect {
                &&& r is Err
                &&& r->Err_0 matches CoreError::Connection(m) && m@ == "mock connect failure"@
                &&& *final(self) == *old(self)
            } else {
                r is Ok && *final(self) == (MockAdapter { connected: true, ..*old(self) })
            },
    {
        if self.fail_connect {
            return Err(CoreError::Connection("mock connect failure".to_owned()));
        }
        self.connected = true;
        Ok(())
    }

    /// The messages that came after `since`.
    pub fn fetch_messages(&self, since: Option<Timestamp>) -> (r: Result<
        Vec<RawMessage>,
        CoreError,
    >)
        ensures
            if self.fail_fetch {
                r is Err && (r->Err_0 matches CoreError::Channel(m) && m@
                    == "mock fetch failure"@)
            } else {
                r is Ok && fetched(r->Ok_0@, self.messages@, since)
            },
    {
        if self.fail_fetch {
            return Err(CoreError::Channel("mock fetch failure".to_owned()));
        }
        let mut out: Vec<RawMessage> = Vec::new();
        proof {
            assert(self.messages@.take(0) =~= Seq::empty());
        }
        for i in 0..self.messages.len()
            invariant
                fetched(out@, self.messages@.take(i as int), since),
        {
            let ghost before = out@;
            let ghost shorter = self.messages@.take(i as int);
            let ghost longer = self.messages@.take(i + 1);
            proof {
                assert(longer.drop_last() =~= shorter);
                assert(longer.last() == self.messages@[i as int]);
                lemma_new_messages(shorter, since);
            }
            let keep = match &since {
                Some(t) => self.messages[i].timestamp.is_after(t),
                None => true,
            };
            if keep {
                out.push(self.messages[i].copy());
            }
            proof {
                assert forall|k: int| 0 <= k < out@.len() implies raw::same_raw(
                    #[trigger] out@[k],
                    longer[new_messages(longer, since)[k]],
                ) by {
                    if k < before.len() {
                        assert(out@[k] == before[k]);
                        assert(new_messages(longer, since)[k] == new_messages(shorter, since)[k]);
                        assert(longer[new_messages(shorter, since)[k]]
                            == shorter[new_messages(shorter, since)[k]]);
                    }
                }
            }
        }
        proof {
            assert(self.messages@.take(self.messages@.len() as int) =~= self.messages@);
        }
        Ok(out)
    }

    /// Sends a reply at a time.
    pub fn send_reply(
        &mut self,
        thread_id: &str,
        content: &MessageContent,
        now: Timestamp,
    ) -> (r: Result<(), CoreError>)
        ensures
            if old(self).fail_send {
                &&& r is Err
                &&& r->Err_0 matches CoreError::Channel(m) && m@ == "mock send failure"@
                &&& *final(self) == *old(self)
            } else {
                &&& r is Ok
                &&& *final(self) == (MockAdapter {
                    sent_replies: final(self).sent_replies,
                    ..*old(self)
                })
                &&& final(self).sent_replies@.len() == old(self).sent_replies@.len() + 1
                &&& final(self).sent_replies@.drop_last() == old(self).sent_replies@
                &&& final(self).sent_replies@.last().thread_id@ == thread_id@
                &&& final(self).sent_replies@.last().content@ == content@
                &&& final(self).sent_replies@.last().sent_at == now
            },
    {
        if self.fail_send {
            return Err(CoreError::Channel("mock send failure".to_owned()));
        }
        self.sent_replies.push(
            SentReply { thread_id: thread_id.to_owned(), content: content.copy(), sent_at: now },
        );
        proof {
            assert(self.sent_replies@.drop_last() =~= old(self).sent_replies@);
        }
        Ok(())
    }

    /// Disconnects.
    pub fn disconnect(&mut self) -> (r: Result<(), CoreError>)
        ensures
            r is Ok,
            *final(self) == (MockAdapter { connected: false, ..*old(self) }),
    {
        self.connected = false;
        Ok(())
    }

    /// The channel that the adapter serves.
    pub fn channel_type(&self) -> (r: Channel)
        ensures
            r == self.channel,
    {
        self.channel
    }
}

impl Default for MockAdapter {
    fn default() -> (r: MockAdapter)
        ensures
            r.messages@.len() == 0,
            r.sent_replies@.len() == 0,
            !r.connected,
            r.channel == Channel::Telegram,
            !r.fail_connect,
            !r.fail_fetch,
            !r.fail_send,
    {
        MockAdapter::new()
    }
}

} // verus!
