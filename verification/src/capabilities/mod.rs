//! What a session offers the model beside its tools: skills, rules and instruction files.

pub mod context_files;
pub mod file_laws;
pub mod frontmatter;
pub mod laws;
pub mod providers;
pub mod rules;
pub mod skill_laws;
pub mod skills;
pub mod snapshot;
pub mod source;
pub mod warning;
