//! The library's error type.

use vstd::prelude::*;

verus! {

/// Errors raised by the library, each carrying a human-readable message.
#[derive(Debug)]
pub enum AppError {
    /// Configuration is invalid or cannot be used.
    Config(String),
    /// A problem talking to an upstream MCP service.
    Mcp(String),
    /// A problem in the OAuth flow.
    OAuth(String),
    /// A prefixed tool name could not be parsed.
    ToolNotFound(String),
    /// No connected upstream has the given name.
    UpstreamNotFound(String),
    /// A problem managing the Cloudflare tunnel.
    Tunnel(String),
}

impl AppError {
    /// The message the error carries.
    pub open spec fn spec_detail(&self) -> Seq<char> {
        match self {
            AppError::Config(m) => m@,
            AppError::Mcp(m) => m@,
            AppError::OAuth(m) => m@,
            AppError::ToolNotFound(m) => m@,
            AppError::UpstreamNotFound(m) => m@,
            AppError::Tunnel(m) => m@,
        }
    }

    /// The message the error carries.
    pub fn detail(&self) -> (r: &String)
        ensures
            r@ == self.spec_detail(),
    {
        match self {
            AppError::Config(m) => m,
            AppError::Mcp(m) => m,
            AppError::OAuth(m) => m,
            AppError::ToolNotFound(m) => m,
            AppError::UpstreamNotFound(m) => m,
            AppError::Tunnel(m) => m,
        }
    }
}

} // verus!
