//! Verified core of an MCP server that exposes an Elasticsearch backend to
//! tool-calling agents: configuration templating, tool visibility rules,
//! per-request credential derivation and the decisions taken around the
//! backend calls.

pub mod protocol;
pub mod servers;
pub mod setup;
pub mod utils;
