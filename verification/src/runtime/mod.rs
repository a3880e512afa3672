//! What drives the channels: their state, their tasks and what follows.
pub mod channel_task;
pub mod classifier_worker;
pub mod events;
pub mod factory;
pub mod ingestor;
pub mod runtime_laws;
pub mod status;
