//! The classifier of incoming messages.
use vstd::prelude::*;

use crate::ai::category::Category;
use crate::ai::llm::CompletionRequest;
use crate::ai::prompts;
use crate::ai::prompts::{build_classification_user_prompt, CLASSIFICATION_SYSTEM_PROMPT};
use crate::ai::rag::RagContext;
use crate::error;
use crate::error::CoreError;
use crate::types::{Channel, PriorityScore};

verus! {

/// What the classifier finds out about a message.
#[derive(Debug)]
pub struct Classification {
    pub priority: PriorityScore,
    pub category: Category,
    /// A sentence that says why.
    pub reasoning: String,
}

/// The message of the error for a model that could not be asked: its own where it
/// speaks of the model already.
pub open spec fn backend_text(e: CoreError) -> Seq<char> {
    match e {
        CoreError::Ai(m) => m@,
        _ => error::error_text(e),
    }
}

/// The error for a model that could not be asked, whatever stood in its way.
pub fn backend_error(e: &CoreError) -> (r: CoreError)
    ensures
        r is Ai,
        r->Ai_0@ == backend_text(*e),
{
    match e {
        CoreError::Ai(m) => CoreError::Ai(m.clone()),
        _ => CoreError::Ai(e.message()),
    }
}

/// Asks a language model to classify a message.
#[derive(Clone, Copy, Debug)]
pub struct Classifier {
    max_tokens: u32,
}

impl Classifier {
    /// The most tokens that an answer can have.
    pub closed spec fn limit(&self) -> u32 {
        self.max_tokens
    }

    /// A classifier whose answers have at most 256 tokens.
    pub fn new() -> (r: Classifier)
        ensures
            r.limit() == 256,
    {
        Classifier { max_tokens: 256 }
    }

    /// What the model is asked about a message.
    pub fn request(
        &self,
        channel: Channel,
        sender_name: &str,
        sender_address: &str,
        subject: &str,
        body: &str,
        rag: &RagContext,
    ) -> (r: CompletionRequest)
        ensures
            r.system@ == CLASSIFICATION_SYSTEM_PROMPT@,
            r.user@ == prompts::classification_prompt(
                channel,
                sender_name@,
                sender_address@,
                subject@,
                body@,
                *rag,
            ),
            r.max_tokens == self.limit(),
    {
        CompletionRequest {
            system: CLASSIFICATION_SYSTEM_PROMPT,
            user: build_classification_user_prompt(
                channel,
                sender_name,
                sender_address,
                subject,
                body,
                rag,
            ),
            max_tokens: self.max_tokens,
        }
    }
}

} // verus!
