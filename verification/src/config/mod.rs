//! Settings of a session.

pub mod laws;
pub mod limits;
pub mod models;
pub mod policy;
pub mod resolved;
pub mod sandbox;
