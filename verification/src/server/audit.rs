//! Audit records of the calls that pass through the aggregated server.

use vstd::prelude::*;
use crate::text::{decimal, decimal_text, join2};

verus! {

/// A JSON value, carried through unchanged.
#[verifier::external_type_specification]
#[verifier::external_body]
pub struct ExJsonValue(serde_json::Value);

/// What an audit record describes.
pub enum AuditDirection {
    Call,
    Response,
    List,
    Error,
}

/// One audit record.
pub struct AuditLog {
    /// When it happened, in seconds since the Unix epoch (UTC).
    pub timestamp: i64,
    pub direction: AuditDirection,
    pub upstream: String,
    pub tool: Option<String>,
    pub args: Option<serde_json::Value>,
    pub result: Option<serde_json::Value>,
    pub error: Option<String>,
    pub duration_ms: u64,
}

/// The `tool` text of a list record: the count and ` tools`.
pub open spec fn tool_count_text(count: nat) -> Seq<char> {
    decimal(count) + " tools"@
}

impl AuditLog {
    /// A record of a tool call being forwarded.
    pub fn call(upstream: String, tool: Option<String>, args: Option<serde_json::Value>, timestamp: i64) -> (r: AuditLog)
        ensures
            r.timestamp == timestamp,
            r.direction is Call,
            r.upstream == upstream,
            r.tool == tool,
            r.args == args,
            r.result is None,
            r.error is None,
            r.duration_ms == 0,
    {
        AuditLog {
            timestamp,
            direction: AuditDirection::Call,
            upstream,
            tool,
            args,
            result: None,
            error: None,
            duration_ms: 0,
        }
    }

    /// A record of a tool call's response.
    pub fn response(
        upstream: String,
        tool: Option<String>,
        result: Option<serde_json::Value>,
        duration_ms: u64,
        timestamp: i64,
    ) -> (r: AuditLog)
        ensures
            r.timestamp == timestamp,
            r.direction is Response,
            r.upstream == upstream,
            r.tool == tool,
            r.args is None,
            r.result == result,
            r.error is None,
            r.duration_ms == duration_ms,
    {
        AuditLog {
            timestamp,
            direction: AuditDirection::Response,
            upstream,
            tool,
            args: None,
            result,
            error: None,
            duration_ms,
        }
    }

    /// A record of a failed tool call.
    pub fn error(upstream: String, tool: Option<String>, error: String, duration_ms: u64, timestamp: i64) -> (r: AuditLog)
        ensures
            r.timestamp == timestamp,
            r.direction is Error,
            r.upstream == upstream,
            r.tool == tool,
            r.args is None,
            r.result is None,
            r.error == Some(error),
            r.duration_ms == duration_ms,
    {
        AuditLog {
            timestamp,
            direction: AuditDirection::Error,
            upstream,
            tool,
            args: None,
            result: None,
            error: Some(error),
            duration_ms,
        }
    }

    /// The one record that ends a forwarded call: its response (with the
    /// result) when it succeeded, its error (with the message) when not.
    pub fn call_ended(
        upstream: String,
        tool: Option<String>,
        outcome: Result<Option<serde_json::Value>, String>,
        duration_ms: u64,
        timestamp: i64,
    ) -> (r: AuditLog)
        ensures
            r.timestamp == timestamp,
            r.upstream == upstream,
            r.tool == tool,
            r.args is None,
            r.duration_ms == duration_ms,
            match outcome {
                Ok(v) => r.direction is Response && r.result == v && r.error is None,
                Err(m) => r.direction is Error && r.result is None && r.error == Some(m),
            },
    {
        match outcome {
            Ok(v) => AuditLog::response(upstream, tool, v, duration_ms, timestamp),
            Err(m) => AuditLog::error(upstream, tool, m, duration_ms, timestamp),
        }
    }

    /// A record of a tool listing: how many tools one upstream exposed.
    pub fn list(upstream: String, tool_count: usize, timestamp: i64) -> (r: AuditLog)
        ensures
            r.timestamp == timestamp,
            r.direction is List,
            r.upstream == upstream,
            r.tool matches Some(t) && t@ == tool_count_text(tool_count as nat),
            r.args is None,
            r.result is None,
            r.error is None,
            r.duration_ms == 0,
    {
        let count = decimal_text(tool_count as u64);
        AuditLog {
            timestamp,
            direction: AuditDirection::List,
            upstream,
            tool: Some(join2(count.as_str(), " tools")),
            args: None,
            result: None,
            error: None,
            duration_ms: 0,
        }
    }
}

} // verus!
