//! The cloud actions, one module each.
pub mod common;
pub mod draft;
pub mod search;
pub mod summarize;
