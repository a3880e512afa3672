//! MessageHub core.
use vstd::prelude::*;

pub mod adapters;
pub mod ai;
pub mod config;
pub mod config_laws;
pub mod error;
pub mod error_laws;
pub mod hash;
pub mod id;
pub mod id_laws;
pub mod id_map;
pub mod json;
pub mod knowledge;
pub mod pattern;
pub mod runtime;
pub mod store;
pub mod text;
pub mod text_laws;
pub mod text_map;
pub mod time;
pub mod types;

verus! {

} // verus!
