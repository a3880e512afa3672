//! What the library speaks of: channels, messages, threads and contacts.
pub mod channel;
pub mod contact;
pub mod contact_laws;
pub mod message;
pub mod thread;

pub use channel::{Channel, ChannelConfig};
pub use contact::{Contact, ContactIdentity};
pub use message::{Attachment, Message, MessageContent, PriorityScore};
pub use thread::Thread;
