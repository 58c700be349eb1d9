//! Requests to language models.

pub mod client;
pub mod estimate;
pub mod laws;
pub mod message_laws;
pub mod meter;
pub mod options;
pub mod retry;
pub mod stream;
pub mod transport;
pub mod wire_laws;
