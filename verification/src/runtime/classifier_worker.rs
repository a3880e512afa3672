//! What follows the classification of a stored message.
use vstd::prelude::*;

use crate::error::CoreError;
use crate::id::Uuid;
use crate::runtime::events::{EventText, RuntimeEvent};
use crate::types::message;
use crate::types::Message;

verus! {

/// What is published once a message was classified: the category and priority
/// that it is then stored with. Where it cannot be read again, neither is
/// known; where the classification could not be stored, nothing is published.
pub fn classified_event(
    id: Uuid,
    stored: bool,
    reloaded: Result<Message, CoreError>,
) -> (r: Option<RuntimeEvent>)
    ensures
        r is Some <==> stored,
        r matches Some(e) ==> e@ == (match reloaded {
            Ok(m) => EventText::MessageClassified {
                id,
                category: message::optional_text(m.category),
                priority: m.priority,
            },
            Err(_) => EventText::MessageClassified { id, category: None, priority: None },
        }),
{
    if !stored {
        return None;
    }
    match reloaded {
        Ok(m) => Some(
            RuntimeEvent::MessageClassified { id, category: m.category, priority: m.priority },
        ),
        Err(_) => Some(RuntimeEvent::MessageClassified { id, category: None, priority: None }),
    }
}

} // verus!
