use mcp_tunnel::error::AppError;
use mcp_tunnel::mcp::tool_filter::{parse_tool_name, prefix_tool_name};
use mcp_tunnel::server::router::{audit_upstream, require_connected, route_tool_call, upstream_tool_count};

fn config_message(e: AppError) -> String {
    match e {
        AppError::Config(m) => m,
        _ => panic!("expected a configuration error"),
    }
}

#[test]
fn prefix_joins_with_double_underscore() {
    assert_eq!(prefix_tool_name("notion", "search_pages").ok().unwrap(), "notion__search_pages");
}

#[test]
fn prefix_refuses_upstream_with_delimiter() {
    let e = prefix_tool_name("my__server", "tool").err().unwrap();
    assert_eq!(config_message(e), "upstream name 'my__server' contains reserved delimiter '__'");
}

#[test]
fn prefix_refuses_tool_with_delimiter() {
    let e = prefix_tool_name("server", "bad__tool").err().unwrap();
    assert_eq!(config_message(e), "tool name 'bad__tool' contains reserved delimiter '__'");
}

#[test]
fn prefix_checks_upstream_before_tool() {
    let e = prefix_tool_name("a__b", "c__d").err().unwrap();
    assert_eq!(config_message(e), "upstream name 'a__b' contains reserved delimiter '__'");
}

#[test]
fn parse_splits_at_first_delimiter() {
    assert_eq!(parse_tool_name("notion__search_pages"), Some(("notion", "search_pages")));
    assert_eq!(parse_tool_name("a__b__c"), Some(("a", "b__c")));
    assert_eq!(parse_tool_name("__x"), Some(("", "x")));
    assert_eq!(parse_tool_name("x__"), Some(("x", "")));
}

#[test]
fn parse_without_delimiter_is_none() {
    assert_eq!(parse_tool_name("plain_tool"), None);
    assert_eq!(parse_tool_name(""), None);
    assert_eq!(parse_tool_name("_"), None);
}

#[test]
fn round_trip_of_prefixed_names() {
    for (u, t) in [("fs", "read_file"), ("notion", "_private"), ("é", "ü_tool"), ("srv", "")] {
        let p = prefix_tool_name(u, t).ok().unwrap();
        assert_eq!(parse_tool_name(&p), Some((u, t)));
    }
}

#[test]
fn trailing_underscore_upstream_does_not_round_trip() {
    let p = prefix_tool_name("a_", "x").ok().unwrap();
    assert_eq!(p, "a___x");
    assert_eq!(parse_tool_name(&p), Some(("a", "_x")));
}

#[test]
fn count_tools_of_upstream() {
    let names = vec![
        "fs__read".to_string(),
        "fs__write".to_string(),
        "fsx__read".to_string(),
        "notion__search".to_string(),
    ];
    assert_eq!(upstream_tool_count(&names, "fs"), 2);
    assert_eq!(upstream_tool_count(&names, "notion"), 1);
    assert_eq!(upstream_tool_count(&names, "slack"), 0);
}

#[test]
fn route_to_connected_upstream() {
    let connected = vec!["fs".to_string(), "notion".to_string()];
    let (u, t) = route_tool_call("notion__search", &connected).ok().unwrap();
    assert_eq!((u.as_str(), t.as_str()), ("notion", "search"));
}

#[test]
fn route_unknown_tool_name() {
    let connected = vec!["fs".to_string()];
    match route_tool_call("search", &connected) {
        Err(AppError::ToolNotFound(m)) => assert_eq!(m, "search"),
        _ => panic!("expected ToolNotFound"),
    }
}

#[test]
fn route_unknown_upstream() {
    let connected = vec!["fs".to_string()];
    match route_tool_call("slack__post", &connected) {
        Err(AppError::UpstreamNotFound(m)) => assert_eq!(m, "slack"),
        _ => panic!("expected UpstreamNotFound"),
    }
}

#[test]
fn audit_upstream_of_names() {
    assert_eq!(audit_upstream("fs__read").as_deref(), Some("fs"));
    assert_eq!(audit_upstream("read"), None);
}

#[test]
fn serving_needs_a_connection() {
    assert!(require_connected(true).is_ok());
    match require_connected(false) {
        Err(AppError::Mcp(m)) => assert_eq!(m, "No upstream servers connected"),
        _ => panic!("expected an MCP error"),
    }
}

#[test]
fn error_detail_is_the_message() {
    assert_eq!(AppError::Tunnel("x".to_string()).detail(), "x");
    assert_eq!(AppError::OAuth("y".to_string()).detail(), "y");
}
