use mcp_tunnel::config::{
    default_bind_addr, default_true, default_tunnel_mode, Config, ServerConfig, TunnelConfig, TunnelMode,
    UpstreamType,
};
use mcp_tunnel::error::AppError;
use mcp_tunnel::config::check_parsed_url;
use mcp_tunnel::url_parts::ParsedUrl;

fn http(name: &str, url: &str) -> ServerConfig {
    ServerConfig {
        name: name.to_string(),
        ty: UpstreamType::Http { url: url.to_string() },
        enabled_tools: vec![],
        disabled_tools: vec![],
    }
}

fn stdio(name: &str, command: &str) -> ServerConfig {
    ServerConfig {
        name: name.to_string(),
        ty: UpstreamType::Stdio { command: command.to_string(), args: vec![] },
        enabled_tools: vec![],
        disabled_tools: vec![],
    }
}

fn strings(v: &[&str]) -> Vec<String> {
    v.iter().map(|s| s.to_string()).collect()
}

fn validation_message(sc: &ServerConfig) -> Option<String> {
    match sc.validate() {
        Ok(()) => None,
        Err(AppError::Config(m)) => Some(m),
        Err(_) => panic!("expected a configuration error"),
    }
}

#[test]
fn all_tools_enabled_by_default() {
    let sc = http("n", "https://example.com/mcp");
    assert!(sc.is_tool_enabled("anything"));
}

#[test]
fn disabled_tools_are_filtered() {
    let mut sc = http("n", "https://example.com/mcp");
    sc.disabled_tools = strings(&["delete_page"]);
    assert!(!sc.is_tool_enabled("delete_page"));
    assert!(sc.is_tool_enabled("create_page"));
}

#[test]
fn enabled_list_restricts_and_disabled_takes_precedence() {
    let mut sc = http("n", "https://example.com/mcp");
    sc.enabled_tools = strings(&["a", "b"]);
    sc.disabled_tools = strings(&["b"]);
    assert!(sc.is_tool_enabled("a"));
    assert!(!sc.is_tool_enabled("b"));
    assert!(!sc.is_tool_enabled("c"));
}

#[test]
fn toggling_a_tool_twice_restores_it() {
    let mut sc = http("n", "https://example.com/mcp");
    sc.disabled_tools = strings(&["x"]);
    sc.toggle_disabled_tool("y");
    assert!(!sc.is_tool_enabled("y"));
    sc.toggle_disabled_tool("y");
    assert!(sc.is_tool_enabled("y"));
    sc.toggle_disabled_tool("x");
    assert!(sc.is_tool_enabled("x"));
    assert!(sc.disabled_tools.is_empty());
}

#[test]
fn valid_servers_pass() {
    assert_eq!(validation_message(&http("notion", "https://mcp.notion.com/mcp")), None);
    assert_eq!(validation_message(&http("local", "  http://127.0.0.1:3000/mcp ")), None);
    assert_eq!(validation_message(&stdio("fs", "npx")), None);
}

#[test]
fn blank_name_is_refused() {
    assert_eq!(validation_message(&http("  ", "https://x.com")).as_deref(), Some("Server name cannot be empty"));
}

#[test]
fn name_with_delimiter_is_refused() {
    assert_eq!(
        validation_message(&stdio("a__b", "npx")).as_deref(),
        Some("Server name 'a__b' contains reserved delimiter '__'")
    );
}

#[test]
fn empty_url_is_refused() {
    assert_eq!(validation_message(&http("n", "   ")).as_deref(), Some("HTTP URL cannot be empty"));
}

#[test]
fn url_without_host_is_refused() {
    assert_eq!(
        validation_message(&http("n", "mailto:someone@example.com")).as_deref(),
        Some("URL 'mailto:someone@example.com' has no host")
    );
}

#[test]
fn url_with_other_scheme_is_refused() {
    assert_eq!(
        validation_message(&http("n", " ftp://example.com/x")).as_deref(),
        Some("URL 'ftp://example.com/x' must use http:// or https://")
    );
}

#[test]
fn unparsable_url_is_refused() {
    let expected = format!("URL 'not a url' is invalid: {}", url::Url::parse("not a url").unwrap_err());
    assert_eq!(validation_message(&http("n", "not a url")), Some(expected));
    assert_eq!(
        validation_message(&http("n", "not a url")).as_deref(),
        Some("URL 'not a url' is invalid: relative URL without a base")
    );
}

#[test]
fn blank_command_is_refused() {
    assert_eq!(validation_message(&stdio("fs", " \t")).as_deref(), Some("Stdio command cannot be empty"));
}

#[test]
fn defaults() {
    assert!(matches!(default_tunnel_mode(), TunnelMode::Disabled));
    assert_eq!(default_bind_addr(), "127.0.0.1:3000");
    assert!(default_true());
    let t = TunnelConfig::default();
    assert_eq!(t.bind_addr, "127.0.0.1:3000");
    assert!(matches!(t.mode, TunnelMode::Disabled));
    let c = Config::default();
    assert!(c.servers.is_empty());
}

#[test]
fn base_url_prefixes_http() {
    let t = TunnelConfig { mode: TunnelMode::Quick, bind_addr: "0.0.0.0:8080".to_string() };
    assert_eq!(t.base_url(), "http://0.0.0.0:8080");
}

#[test]
fn duplicate_names_are_refused() {
    let c = Config {
        servers: vec![stdio("a", "x"), stdio("b", "x"), stdio("a", "y"), stdio("a", "z"), stdio("b", "q")],
        tunnel: TunnelConfig::default(),
    };
    assert_eq!(c.duplicate_names(), strings(&["a", "a", "b"]));
    match c.check_duplicates() {
        Err(AppError::Config(m)) => assert_eq!(m, "Duplicate server names found: [\"a\", \"a\", \"b\"]"),
        _ => panic!("expected a configuration error"),
    }
}

#[test]
fn distinct_names_are_accepted() {
    let c = Config { servers: vec![stdio("a", "x"), stdio("b", "x")], tunnel: TunnelConfig::default() };
    assert!(c.check_duplicates().is_ok());
}

#[test]
fn add_and_remove_servers() {
    let mut c = Config::default();
    c.add_http_server("notion".to_string(), "https://mcp.notion.com/mcp".to_string());
    c.add_stdio_server("fs".to_string(), "npx".to_string(), strings(&["-y", "server"]));
    c.add_http_server("notion".to_string(), "https://other".to_string());
    assert_eq!(c.servers.len(), 3);
    match &c.servers[1].ty {
        UpstreamType::Stdio { command, args } => {
            assert_eq!(command, "npx");
            assert_eq!(args, &strings(&["-y", "server"]));
        }
        _ => panic!("expected stdio"),
    }
    c.remove_server("notion");
    assert_eq!(c.servers.len(), 1);
    assert_eq!(c.servers[0].name, "fs");
    c.remove_server("missing");
    assert_eq!(c.servers.len(), 1);
}

fn parsed_url(has_host: bool, scheme: &str) -> Result<ParsedUrl, String> {
    Ok(ParsedUrl { has_host, scheme: scheme.to_string(), query_pairs: vec![] })
}

#[test]
fn url_judged_from_parse_result() {
    assert!(check_parsed_url("https://a.b", parsed_url(true, "https")).is_ok());
    match check_parsed_url("ftp://a", parsed_url(true, "ftp")) {
        Err(AppError::Config(m)) => assert_eq!(m, "URL 'ftp://a' must use http:// or https://"),
        _ => panic!("expected a config error"),
    }
    match check_parsed_url("x:y", parsed_url(false, "x")) {
        Err(AppError::Config(m)) => assert_eq!(m, "URL 'x:y' has no host"),
        _ => panic!("expected a config error"),
    }
    match check_parsed_url("nope", Err("relative URL without a base".to_string())) {
        Err(AppError::Config(m)) => assert_eq!(m, "URL 'nope' is invalid: relative URL without a base"),
        _ => panic!("expected a config error"),
    }
}

#[test]
fn toggling_keeps_disabled_list_distinct() {
    let mut s = ServerConfig {
        name: "s".to_string(),
        ty: UpstreamType::Http { url: "https://a.b".to_string() },
        enabled_tools: vec![],
        disabled_tools: vec!["a".to_string(), "b".to_string()],
    };
    s.toggle_disabled_tool("c");
    s.toggle_disabled_tool("a");
    assert_eq!(s.disabled_tools, vec!["b".to_string(), "c".to_string()]);
    s.toggle_disabled_tool("a");
    assert_eq!(s.disabled_tools, vec!["b".to_string(), "c".to_string(), "a".to_string()]);
}
