//! The system prompt: its sections and how they are composed.

pub mod builder;
pub mod builtin;
pub mod document;
pub mod document_laws;
pub mod facts;
pub mod graph;
pub mod laws;
pub mod mission;
pub mod modules;
pub mod render;
pub mod render_laws;
pub mod requirement;
pub mod section_laws;
pub mod sections;
pub mod workflow_laws;
pub mod workflows;
