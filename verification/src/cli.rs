//! The command line: a configuration path and an optional subcommand.

use vstd::prelude::*;
use std::path::PathBuf;

verus! {

/// The parsed command line.
pub struct Cli {
    /// The configuration file.
    pub config: PathBuf,
    /// What to do; the terminal UI when absent.
    pub command: Option<Commands>,
}

/// The subcommands.
pub enum Commands {
    /// Start the aggregated MCP server (no UI).
    Serve,
    /// Add an HTTP upstream MCP server.
    Add { name: String, url: String },
    /// Add a stdio upstream MCP server.
    AddStdio { name: String, command: String, args: Vec<String> },
    /// Remove an upstream server.
    Remove { name: String },
    /// Clear the saved OAuth token of a server.
    ClearToken { name: String },
    /// Manage the Cloudflare tunnel.
    Tunnel { command: TunnelCommands },
}

/// The tunnel subcommands.
pub enum TunnelCommands {
    /// Log in to Cloudflare.
    Login,
    /// Create a named tunnel.
    Create { name: String },
    /// Delete a named tunnel.
    Delete { name: String },
    /// List all tunnels.
    List,
}

} // verus!
