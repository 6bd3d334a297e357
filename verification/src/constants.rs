//! Addresses, paths and timings shared across the program.

use vstd::prelude::*;

verus! {

/// Default bind address for the MCP server.
pub const DEFAULT_BIND_ADDR: &'static str = "127.0.0.1:3000";

/// Default base URL for the local MCP server (used by the UI and tunnel).
pub const DEFAULT_BASE_URL: &'static str = "http://127.0.0.1:3000";

/// Path segment where the MCP streamable HTTP endpoint is mounted.
pub const MCP_PATH: &'static str = "/mcp";

/// Local OAuth callback listen address (host:port).
pub const OAUTH_CALLBACK_ADDR: &'static str = "127.0.0.1:9876";

/// Full OAuth callback URL used as redirect_uri.
pub const OAUTH_CALLBACK_URL: &'static str = "http://127.0.0.1:9876/callback";

/// UI tick rate in milliseconds.
pub const TICK_RATE_MS: u64 = 250;

/// Duration in seconds that UI status messages remain visible.
pub const TUI_MESSAGE_DURATION_SECS: u64 = 3;

} // verus!
