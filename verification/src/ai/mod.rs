//! Local and cloud language-model features.
pub mod answer_laws;
pub mod category;
pub mod classifier;
pub mod cloud;
pub mod json;
pub mod llm;
pub mod pipeline;
pub mod profile;
pub mod prompt_laws;
pub mod prompts;
pub mod rag;

pub use category::Category;
pub use classifier::{Classification, Classifier};
pub use profile::UserProfile;
pub use rag::RagContext;
