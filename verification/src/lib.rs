//! A declarative workflow execution engine.
//!
//! A workflow is a versioned specification of sequential steps.  Each step
//! names an executor (an external capability such as an HTTP call or an LLM
//! completion), carries a JSON input template whose `${path}` references are
//! resolved against the run's context, and may be guarded by a condition and
//! by a security policy gate.  Every run produces one immutable receipt
//! recording each step's input, outcome and the overall status.
//!
//! The engine itself performs no I/O: executors are split into pure planning
//! and outcome-interpretation functions, and the driver that actually performs
//! network calls feeds their results back through [`runner::WorkflowRun`].

#![verifier::loop_isolation(false)]

pub mod agent_os;
pub mod channels;
pub mod config;
pub mod config_json;
pub mod context;
pub mod conversation;
pub mod daemon;
pub mod executor;
pub mod heartbeat;
pub mod identity;
pub mod integration;
pub mod json;
pub mod llm;
pub mod json_parse;
pub mod json_text;
pub mod monitor;
pub mod oauth_config;
pub mod receipt;
pub mod resolve;
pub mod runner;
pub mod store;
pub mod text;
