//! The log of a session.

pub mod codec;
pub mod entry;
pub mod field_laws;
pub mod laws;
pub mod model;
