//! Verified decision logic of the TitanClaw agent runtime.
pub mod agent_loop;
pub mod auth;
pub mod autonomy;
pub mod completion;
pub mod consolidation;
pub mod critic;
pub mod dispatch;
pub mod error;
pub mod incident;
pub mod json;
pub mod kernel;
pub mod memory;
pub mod onboarding;
pub mod order;
pub mod plan_exec;
pub mod policy;
pub mod reliability;
pub mod replanner;
pub mod retrieval;
pub mod routine;
pub mod section_laws;
pub mod shadow;
pub mod synthesis;
pub mod telemetry;
pub mod text;
pub mod threads;
pub mod tool_exec;
pub mod worker;
