//! What the runtime tells those who listen.
use vstd::prelude::*;

use crate::id::Uuid;
use crate::runtime::status::{ChannelStatus, StatusText};
use crate::types::message;
use crate::types::PriorityScore;

verus! {

/// An event of the runtime.
#[derive(Debug)]
pub enum RuntimeEvent {
    MessageIngested { id: Uuid, channel_id: Uuid },
    MessageClassified { id: Uuid, category: Option<String>, priority: Option<PriorityScore> },
    SyncSucceeded { channel_id: Uuid, count: usize },
    SyncFailed { channel_id: Uuid, error: String, attempt: u32 },
    ChannelStatusChanged { channel_id: Uuid, status: ChannelStatus },
}

/// An event as a mathematical value.
pub enum EventText {
    MessageIngested { id: Uuid, channel_id: Uuid },
    MessageClassified { id: Uuid, category: Option<Seq<char>>, priority: Option<PriorityScore> },
    SyncSucceeded { channel_id: Uuid, count: nat },
    SyncFailed { channel_id: Uuid, error: Seq<char>, attempt: nat },
    ChannelStatusChanged { channel_id: Uuid, status: StatusText },
}

impl View for RuntimeEvent {
    type V = EventText;

    open spec fn view(&self) -> EventText {
        match *self {
            RuntimeEvent::MessageIngested { id, channel_id } => EventText::MessageIngested {
                id,
                channel_id,
            },
            RuntimeEvent::MessageClassified { id, category, priority } => {
                EventText::MessageClassified {
                    id,
                    category: message::optional_text(category),
                    priority,
                }
            },
            RuntimeEvent::SyncSucceeded { channel_id, count } => EventText::SyncSucceeded {
                channel_id,
                count: count as nat,
            },
            RuntimeEvent::SyncFailed { channel_id, error, attempt } => EventText::SyncFailed {
                channel_id,
                error: error@,
                attempt: attempt as nat,
            },
            RuntimeEvent::ChannelStatusChanged { channel_id, status } => {
                EventText::ChannelStatusChanged { channel_id, status: status@ }
            },
        }
    }
}

} // verus!
