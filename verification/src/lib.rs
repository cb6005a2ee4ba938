//! Character-limit enforcement for the arguments of MCP `tools/call`
//! requests: the configuration model, the per-field and total checks, and
//! the request decisions of the policy.

pub mod text;
pub mod json;
pub mod config;
pub mod argcheck;
pub mod filter;
