//! The cloud actions and their options.
use vstd::prelude::*;

verus! {

/// The actions that a cloud model does for the user.
#[derive(Clone, Copy, Debug, PartialEq, Eq, Structural)]
pub enum CloudAction {
    SummarizeThread,
    DraftReply,
    SmartSearch,
}

/// The text by which an action is stored and logged.
pub open spec fn action_text(a: CloudAction) -> Seq<char> {
    match a {
        CloudAction::SummarizeThread => "summarize_thread"@,
        CloudAction::DraftReply => "draft_reply"@,
        CloudAction::SmartSearch => "smart_search"@,
    }
}

impl CloudAction {
    /// The text by which the action is stored and logged.
    pub fn as_str(&self) -> (r: &'static str)
        ensures
            r@ == action_text(*self),
    {
        match self {
            CloudAction::SummarizeThread => "summarize_thread",
            CloudAction::DraftReply => "draft_reply",
            CloudAction::SmartSearch => "smart_search",
        }
    }
}

/// The options of one call.
#[derive(Clone, Copy, Debug, PartialEq, Eq, Structural)]
pub struct CloudConfig {
    /// Whether the text is scrubbed before it leaves. What comes back has the
    /// originals put back in either way.
    pub redact: bool,
}

impl Default for CloudConfig {
    fn default() -> (r: CloudConfig)
        ensures
            !r.redact,
    {
        CloudConfig { redact: false }
    }
}

} // verus!
