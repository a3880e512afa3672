//! What is stored, and how.
pub mod ai_log;
pub mod channels;
pub mod contacts;
pub mod drafts;
pub mod knowledge;
pub mod knowledge_laws;
pub mod meaning;
pub mod message_laws;
pub mod messages;
pub mod migrations;
pub mod phrase_laws;
pub mod read_laws;
pub mod record_laws;
pub mod reply_drafts;
pub mod sql;
pub mod upsert_laws;
