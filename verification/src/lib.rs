//! Verified core of an MCP aggregating proxy: upstream configuration,
//! tool namespacing and filtering, request routing, the terminal UI's state
//! machine, OAuth callback checks and tunnel helpers.

pub mod constants;
pub mod text;
pub mod error;
pub mod mcp;
pub mod config;
pub mod url_parts;
pub mod paths;
pub mod server;
pub mod app;
pub mod tui;
pub mod tunnel;
pub mod view;
pub mod otel;
pub mod cli;
