//! The knowledge base: a vault of markdown files.
pub mod embedder;
pub mod indexer;
pub mod indexer_laws;
pub mod parser;
pub mod parser_laws;
pub mod people;
pub mod people_laws;
pub mod retrieval;
pub mod retrieval_laws;
pub mod watcher;
pub mod watcher_laws;
pub mod yaml;
