//! Messages.
use vstd::prelude::*;

use crate::id::Uuid;
use crate::text::copy_option;
use crate::text_map::TextMap;
use crate::time::Timestamp;
use crate::types::channel::Channel;

verus! {

/// A message, whatever channel it came on.
#[derive(Debug)]
pub struct Message {
    pub id: Uuid,
    pub channel: Channel,
    pub thread_id: Uuid,
    pub sender_id: Uuid,
    pub content: MessageContent,
    pub timestamp: Timestamp,
    pub metadata: TextMap,
    pub priority: Option<PriorityScore>,
    pub category: Option<String>,
    pub is_read: bool,
    pub is_archived: bool,
    /// The identifier that the channel's service gave the message.
    pub external_id: Option<String>,
    /// The configured channel on which the message was received.
    pub received_on_channel_id: Option<Uuid>,
}

/// What a message says.
#[derive(Debug)]
pub struct MessageContent {
    pub text: Option<String>,
    pub html: Option<String>,
    pub subject: Option<String>,
    pub attachments: Vec<Attachment>,
}

/// A file that comes with a message.
#[derive(Debug)]
pub struct Attachment {
    pub filename: String,
    pub mime_type: String,
    pub size_bytes: u64,
    pub local_path: Option<String>,
}

/// An attachment as a mathematical value.
#[verifier::ext_equal]
pub struct AttachmentText {
    pub filename: Seq<char>,
    pub mime_type: Seq<char>,
    pub size_bytes: nat,
    pub local_path: Option<Seq<char>>,
}

/// The text of an optional string.
pub open spec fn optional_text(o: Option<String>) -> Option<Seq<char>> {
    match o {
        Some(s) => Some(s@),
        None => None,
    }
}

impl View for Attachment {
    type V = AttachmentText;

    open spec fn view(&self) -> AttachmentText {
        AttachmentText {
            filename: self.filename@,
            mime_type: self.mime_type@,
            size_bytes: self.size_bytes as nat,
            local_path: optional_text(self.local_path),
        }
    }
}

/// The attachments that a vector holds.
pub open spec fn attachment_texts(v: Seq<Attachment>) -> Seq<AttachmentText> {
    v.map_values(|a: Attachment| a@)
}

/// A content as a mathematical value.
#[verifier::ext_equal]
pub struct ContentText {
    pub text: Option<Seq<char>>,
    pub html: Option<Seq<char>>,
    pub subject: Option<Seq<char>>,
    pub attachments: Seq<AttachmentText>,
}

impl View for MessageContent {
    type V = ContentText;

    open spec fn view(&self) -> ContentText {
        ContentText {
            text: optional_text(self.text),
            html: optional_text(self.html),
            subject: optional_text(self.subject),
            attachments: attachment_texts(self.attachments@),
        }
    }
}

impl MessageContent {
    /// A copy of the content.
    pub fn copy(&self) -> (r: MessageContent)
        ensures
            r@ == self@,
    {
        let mut attachments: Vec<Attachment> = Vec::new();
        for i in 0..self.attachments.len()
            invariant
                attachment_texts(attachments@) == attachment_texts(self.attachments@).take(
                    i as int,
                ),
        {
            let ghost before = attachment_texts(attachments@);
            let a = &self.attachments[i];
            attachments.push(
                Attachment {
                    filename: a.filename.clone(),
                    mime_type: a.mime_type.clone(),
                    size_bytes: a.size_bytes,
                    local_path: copy_option(&a.local_path),
                },
            );
            proof {
                assert(attachment_texts(attachments@) =~= before.push(
                    self.attachments@[i as int]@,
                ));
                assert(attachment_texts(attachments@) =~= attachment_texts(
                    self.attachments@,
                ).take(i + 1));
            }
        }
        proof {
            assert(attachment_texts(attachments@) =~= attachment_texts(self.attachments@));
        }
        MessageContent {
            text: copy_option(&self.text),
            html: copy_option(&self.html),
            subject: copy_option(&self.subject),
            attachments,
        }
    }
}

/// How much a message matters, from one to five.
#[derive(Clone, Copy, Debug, PartialEq, Eq, Structural)]
pub struct PriorityScore(u8);

impl View for PriorityScore {
    type V = u8;

    closed spec fn view(&self) -> u8 {
        self.0
    }
}

impl PriorityScore {
    #[verifier::type_invariant]
    spec fn in_range(self) -> bool {
        1 <= self.0 <= 5
    }

    /// The score, where it is one.
    pub fn new(score: u8) -> (r: Option<PriorityScore>)
        ensures
            r is Some <==> 1 <= score <= 5,
            r is Some ==> r->0@ == score,
    {
        if 1 <= score && score <= 5 {
            Some(PriorityScore(score))
        } else {
            None
        }
    }

    /// The number of the score.
    pub fn value(&self) -> (r: u8)
        ensures
            r == self@,
            1 <= r <= 5,
    {
        proof {
            use_type_invariant(self);
        }
        self.0
    }
}

/// Two scores of the same number are the same.
pub proof fn same_score(a: PriorityScore, b: PriorityScore)
    requires
        a@ == b@,
    ensures
        a == b,
{
}

} // verus!
