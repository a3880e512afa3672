//! The adapters that speak to the services behind the channels.
pub mod adapter_laws;
pub mod email;
pub mod mail;
pub mod mail_shape;
pub mod manager;
pub mod mock;
pub mod raw;
pub mod telegram;

pub use raw::{normalize, normalize_with_id, RawAttachment, RawMessage};
