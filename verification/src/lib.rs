//! The rules of a coding agent: what goes into its prompts and requests, what is done next in a
//! turn, when it is led back to the way, and what is written down of it.
//!
//! Nothing here talks to a service, a file or a terminal. Whoever does hands over plain values,
//! and gets plain values back.

pub mod agent;
pub mod cancel;
pub mod cancel_laws;
pub mod capabilities;
pub mod config;
pub mod context;
pub mod errors;
pub mod events;
pub mod guard;
pub mod hash;
pub mod json;
pub mod json_laws;
pub mod json_parse;
pub mod llm;
pub mod path_laws;
pub mod paths;
pub mod prompt;
pub mod protocol;
pub mod sets;
pub mod text;
pub mod text_laws;
pub mod tool_args;
pub mod tool_execution;
pub mod tool_status;
pub mod tools;
