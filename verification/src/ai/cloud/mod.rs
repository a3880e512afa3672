//! Cloud actions and the scrubbing that precedes them.
pub mod actions;
pub mod config;
pub mod redactor;
pub mod redactor_laws;
pub mod scrub_laws;

pub use config::{CloudAction, CloudConfig};
pub use redactor::{Redactor, ReverseMap};
