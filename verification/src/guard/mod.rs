//! What watches the tool calls of a session.

pub mod collector;
pub mod collector_laws;
pub mod evidence;
pub mod evidence_laws;
pub mod storm;
