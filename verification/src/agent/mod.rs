//! The agent: turns, decisions and sub-agents.

pub mod belief;
pub mod decision;
pub mod laws;
pub mod orchestrator;
pub mod plan_actions;
pub mod prefix;
pub mod prefix_laws;
pub mod recovery_policy;
pub mod signal_laws;
pub mod sub_coordinator;
pub mod sub_executor;
pub mod text;
pub mod tool_signals;
pub mod turn;
