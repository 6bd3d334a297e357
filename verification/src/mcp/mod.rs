//! Upstream MCP handling: tool namespacing, filtering and routing.

pub mod tool_filter;
pub mod client;
pub mod oauth;
