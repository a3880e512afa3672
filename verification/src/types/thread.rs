//! Threads.
use vstd::prelude::*;

use crate::id::Uuid;
use crate::time::Timestamp;
use crate::types::channel::Channel;

verus! {

/// Messages that belong together.
#[derive(Debug)]
pub struct Thread {
    pub id: Uuid,
    pub channel: Channel,
    pub subject: Option<String>,
    pub participant_ids: Vec<Uuid>,
    pub message_count: u32,
    pub last_message_at: Timestamp,
    pub created_at: Timestamp,
    /// The identifier that the channel's service gave the thread.
    pub external_thread_id: Option<String>,
}

} // verus!
