//! Routing of tool calls to upstreams and per-upstream tool counts.

use vstd::prelude::*;
use crate::error::AppError;
use crate::config::{texts, contains_text_item};
use crate::mcp::tool_filter::{parse_tool_name, split_at_delimiter, delimiter};
use crate::text::{join2, owned, starts_with, has_prefix};

verus! {

/// How many of `names` start with `prefix`.
pub open spec fn count_starting(names: Seq<Seq<char>>, prefix: Seq<char>) -> nat
    decreases names.len(),
{
    if names.len() == 0 {
        0
    } else {
        count_starting(names.drop_last(), prefix) + (if starts_with(names.last(), prefix) { 1nat } else { 0nat })
    }
}

/// How many of the exposed tool names belong to `upstream` (start with
/// `upstream__`).
pub fn upstream_tool_count(tool_names: &Vec<String>, upstream: &str) -> (r: usize)
    ensures
        r == count_starting(texts(tool_names@), upstream@ + delimiter()),
{
    let prefix = join2(upstream, "__");
    proof {
        reveal_strlit("__");
        assert("__"@ =~= delimiter());
    }
    let n = tool_names.len();
    let mut count: usize = 0;
    let mut i: usize = 0;
    while i < n
        invariant
            n == tool_names@.len(),
            i <= n,
            prefix@ == upstream@ + delimiter(),
            count == count_starting(texts(tool_names@).subrange(0, i as int), prefix@),
            count <= i,
        decreases n - i,
    {
        let hit = has_prefix(tool_names[i].as_str(), prefix.as_str());
        proof {
            let next = texts(tool_names@).subrange(0, i + 1);
            assert(next.drop_last() =~= texts(tool_names@).subrange(0, i as int));
            assert(next.last() == tool_names@[i as int]@);
        }
        if hit {
            count = count + 1;
        }
        i = i + 1;
    }
    assert(texts(tool_names@).subrange(0, n as int) =~= texts(tool_names@));
    count
}

/// The upstream a prefixed tool name is recorded under in the audit log.
pub fn audit_upstream(tool_name: &str) -> (r: Option<String>)
    ensures
        match (r, split_at_delimiter(tool_name@)) {
            (Some(u), Some((a, _))) => u@ == a,
            (None, None) => true,
            _ => false,
        },
{
    match parse_tool_name(tool_name) {
        Some((upstream, _)) => Some(owned(upstream)),
        None => None,
    }
}

/// Resolves a prefixed tool name against the connected upstreams.
pub fn route_tool_call(prefixed: &str, connected: &Vec<String>) -> (r: Result<(String, String), AppError>)
    ensures
        match split_at_delimiter(prefixed@) {
            None => (r matches Err(AppError::ToolNotFound(m)) && m@ == prefixed@),
            Some((u, t)) => if texts(connected@).contains(u) {
                (r matches Ok((a, b)) && a@ == u && b@ == t)
            } else {
                (r matches Err(AppError::UpstreamNotFound(m)) && m@ == u)
            },
        },
{
    match parse_tool_name(prefixed) {
        None => Err(AppError::ToolNotFound(owned(prefixed))),
        Some((upstream, tool)) => {
            if contains_text_item(connected, upstream) {
                Ok((owned(upstream), owned(tool)))
            } else {
                Err(AppError::UpstreamNotFound(owned(upstream)))
            }
        },
    }
}

/// Refuses to serve when no upstream could be connected.
pub fn require_connected(any_connected: bool) -> (r: Result<(), AppError>)
    ensures
        any_connected ==> r is Ok,
        !any_connected ==> (r matches Err(AppError::Mcp(m)) && m@ == "No upstream servers connected"@),
{
    if any_connected {
        Ok(())
    } else {
        Err(AppError::Mcp(owned("No upstream servers connected")))
    }
}

} // verus!
