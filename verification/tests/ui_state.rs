use mcp_tunnel::app::{App, AddDialogType, Tab};
use mcp_tunnel::config::{Config, ServerConfig, ToolCache, ToolInfo, TunnelConfig, UpstreamType};
use mcp_tunnel::tui::{discovered_tool, Key, KeyAction};

fn stdio(name: &str) -> ServerConfig {
    ServerConfig {
        name: name.to_string(),
        ty: UpstreamType::Stdio { command: "cmd".to_string(), args: vec![] },
        enabled_tools: vec![],
        disabled_tools: vec![],
    }
}

fn http(name: &str, url: &str) -> ServerConfig {
    ServerConfig {
        name: name.to_string(),
        ty: UpstreamType::Http { url: url.to_string() },
        enabled_tools: vec![],
        disabled_tools: vec![],
    }
}

fn tool(name: &str) -> ToolInfo {
    ToolInfo { name: name.to_string(), description: String::new(), enabled: true }
}

fn app_with(servers: Vec<ServerConfig>) -> App {
    App::new(Config { servers, tunnel: TunnelConfig::default() })
}

fn message(a: &App) -> &str {
    a.message.as_deref().unwrap_or("")
}

#[test]
fn new_app_selects_first_server() {
    let a = app_with(vec![stdio("a")]);
    assert_eq!(a.server_list_selected, Some(0));
    assert!(matches!(a.current_tab, Tab::Servers));
    assert_eq!(a.add_dialog_fields, vec![String::new(), String::new()]);
    let b = app_with(vec![]);
    assert_eq!(b.server_list_selected, None);
}

#[test]
fn server_selection_wraps() {
    let mut a = app_with(vec![stdio("a"), stdio("b"), stdio("c")]);
    a.prev_server();
    assert_eq!(a.selected_server, 2);
    a.next_server();
    assert_eq!(a.selected_server, 0);
    a.next_server();
    a.next_server();
    assert_eq!(a.selected_server, 2);
    assert_eq!(a.server_list_selected, Some(2));
    let mut e = app_with(vec![]);
    e.next_server();
    e.prev_server();
    assert_eq!(e.selected_server, 0);
    assert_eq!(e.server_list_selected, None);
}

#[test]
fn tabs_cycle() {
    let mut a = app_with(vec![]);
    a.next_tab();
    assert!(matches!(a.current_tab, Tab::Tools));
    a.next_tab();
    assert!(matches!(a.current_tab, Tab::Tunnel));
    a.next_tab();
    assert!(matches!(a.current_tab, Tab::AuditLog));
    a.next_tab();
    assert!(matches!(a.current_tab, Tab::Servers));
    a.prev_tab();
    assert!(matches!(a.current_tab, Tab::AuditLog));
    a.prev_tab();
    a.prev_tab();
    assert!(matches!(a.current_tab, Tab::Tools));
}

#[test]
fn tool_navigation_uses_cache_of_shown_server() {
    let mut a = app_with(vec![stdio("a")]);
    a.tool_cache = vec![ToolCache { server: "a".to_string(), tools: vec![tool("x"), tool("y")] }];
    a.next_tool();
    assert_eq!(a.selected_tool, 0);
    a.enter_tools_view();
    assert!(matches!(a.current_tab, Tab::Tools));
    assert_eq!(a.tools_for_server.as_deref(), Some("a"));
    assert_eq!(a.current_tools_count(), 2);
    a.next_tool();
    assert_eq!(a.selected_tool, 1);
    a.next_tool();
    assert_eq!(a.selected_tool, 0);
    a.prev_tool();
    assert_eq!(a.selected_tool, 1);
    assert_eq!(a.tool_list_selected, Some(1));
}

#[test]
fn removing_last_server_moves_selection() {
    let mut a = app_with(vec![stdio("a"), stdio("b")]);
    a.next_server();
    assert!(a.remove_selected_server());
    assert_eq!(a.selected_server, 0);
    assert_eq!(a.server_list_selected, Some(0));
    assert!(a.remove_selected_server());
    assert_eq!(a.server_list_selected, None);
    assert!(!a.remove_selected_server());
}

#[test]
fn toggle_selected_tool_updates_config() {
    let mut a = app_with(vec![stdio("a")]);
    a.tool_cache = vec![ToolCache { server: "a".to_string(), tools: vec![tool("x"), tool("y")] }];
    assert!(!a.toggle_selected_tool());
    a.enter_tools_view();
    a.next_tool();
    assert!(a.toggle_selected_tool());
    assert_eq!(a.config.servers[0].disabled_tools, vec!["y".to_string()]);
    assert!(a.toggle_selected_tool());
    assert!(a.config.servers[0].disabled_tools.is_empty());
}

#[test]
fn messages_expire_after_three_whole_seconds() {
    let mut a = app_with(vec![]);
    a.set_message("hi".to_string(), 1_000);
    a.clear_message_if_expired(4_999);
    assert_eq!(message(&a), "hi");
    a.clear_message_if_expired(5_000);
    assert_eq!(a.message, None);
    assert_eq!(a.message_time, None);
}

#[test]
fn quit_and_navigation_keys() {
    let mut a = app_with(vec![stdio("a"), stdio("b")]);
    assert!(matches!(a.handle_key(Key::Down, 0), KeyAction::Nothing));
    assert_eq!(a.selected_server, 1);
    a.handle_key(Key::Char('k'), 0);
    assert_eq!(a.selected_server, 0);
    a.handle_key(Key::Tab, 0);
    a.handle_key(Key::Tab, 0);
    a.handle_key(Key::Tab, 0);
    a.handle_key(Key::Up, 0);
    assert_eq!(a.audit_scroll, 1);
    a.handle_key(Key::Char('j'), 0);
    a.handle_key(Key::Char('j'), 0);
    assert_eq!(a.audit_scroll, 0);
    a.handle_key(Key::BackTab, 0);
    assert!(matches!(a.current_tab, Tab::Tunnel));
    a.handle_key(Key::Char('Q'), 0);
    assert!(a.should_quit);
}

#[test]
fn delete_key_removes_and_saves() {
    let mut a = app_with(vec![stdio("a")]);
    assert!(matches!(a.handle_key(Key::Char('d'), 7), KeyAction::SaveConfig));
    assert!(a.config.servers.is_empty());
    assert_eq!(message(&a), "Server removed");
    assert_eq!(a.message_time, Some(7));
    assert!(matches!(a.handle_key(Key::Char('d'), 8), KeyAction::Nothing));
    assert_eq!(message(&a), "Server removed");
}

#[test]
fn oauth_keys() {
    let mut a = app_with(vec![http("notion", "https://mcp.notion.com/mcp"), stdio("fs")]);
    match a.handle_key(Key::Char('o'), 0) {
        KeyAction::OAuthLogin { index, name, url } => {
            assert_eq!(index, 0);
            assert_eq!(name, "notion");
            assert_eq!(url, "https://mcp.notion.com/mcp");
        }
        _ => panic!("expected an OAuth login"),
    }
    match a.handle_key(Key::Char('O'), 0) {
        KeyAction::ClearToken { name } => assert_eq!(name, "notion"),
        _ => panic!("expected a token clear"),
    }
    assert_eq!(message(&a), "OAuth token cleared for 'notion'");
    a.handle_key(Key::Down, 0);
    assert!(matches!(a.handle_key(Key::Char('o'), 1), KeyAction::Nothing));
    assert_eq!(message(&a), "OAuth only supported for HTTP servers");
}

#[test]
fn tools_overlay_keys() {
    let mut a = app_with(vec![stdio("a")]);
    a.tool_cache = vec![ToolCache { server: "a".to_string(), tools: vec![tool("x"), tool("y")] }];
    a.handle_key(Key::Enter, 0);
    assert!(matches!(a.current_tab, Tab::Tools));
    a.handle_key(Key::Down, 0);
    assert_eq!(a.selected_tool, 1);
    assert!(matches!(a.handle_key(Key::Char(' '), 0), KeyAction::SaveConfig));
    assert_eq!(a.config.servers[0].disabled_tools, vec!["y".to_string()]);
    a.handle_key(Key::Char('f'), 0);
    assert!(a.tools_folded);
    a.handle_key(Key::Char('d'), 0);
    assert_eq!(a.config.servers.len(), 1);
    a.handle_key(Key::Esc, 0);
    assert!(matches!(a.current_tab, Tab::Servers));
}

#[test]
fn tunnel_and_audit_keys() {
    let mut a = app_with(vec![]);
    a.handle_key(Key::Tab, 0);
    a.handle_key(Key::Tab, 0);
    match a.handle_key(Key::Char('t'), 0) {
        KeyAction::StartQuickTunnel { local_url } => assert_eq!(local_url, "http://127.0.0.1:3000"),
        _ => panic!("expected a tunnel start"),
    }
    a.quick_tunnel_started("https://abc.trycloudflare.com".to_string(), 5);
    assert!(a.quick_tunnel_running);
    assert_eq!(message(&a), "QuickTunnel started: https://abc.trycloudflare.com");
    assert!(matches!(a.handle_key(Key::Char('t'), 0), KeyAction::StopQuickTunnel));
    a.quick_tunnel_stopped(6);
    assert_eq!(a.tunnel_url, None);
    assert_eq!(message(&a), "QuickTunnel stopped.");
    a.handle_key(Key::Char('r'), 0);
    assert_eq!(message(&a), "Named tunnel: use CLI 'mcp-tunnel tunnel run <name>'");
    a.handle_key(Key::Char('s'), 0);
    assert_eq!(message(&a), "Serve: not yet implemented in TUI");
    a.quick_tunnel_start_failed("boom", 1);
    assert_eq!(message(&a), "Failed to start QuickTunnel: boom");
    a.quick_tunnel_stop_failed("bang", 1);
    assert_eq!(message(&a), "Failed to stop QuickTunnel: bang");
    a.handle_key(Key::Tab, 0);
    a.audit_scroll = 4;
    a.handle_key(Key::Char('c'), 0);
    assert_eq!(a.audit_scroll, 0);
    assert!(a.audit_logs.is_empty());
}

#[test]
fn add_dialog_creates_http_server() {
    let mut a = app_with(vec![]);
    a.handle_key(Key::Char('a'), 0);
    assert!(a.show_add_dialog);
    for c in " notion ".chars() {
        a.handle_key(Key::Char(c), 0);
    }
    a.handle_key(Key::Char('z'), 0);
    a.handle_key(Key::Backspace, 0);
    a.handle_key(Key::Tab, 0);
    for c in "https://mcp.notion.com/mcp".chars() {
        a.handle_key(Key::Char(c), 0);
    }
    assert!(matches!(a.handle_key(Key::Enter, 3), KeyAction::SaveConfigOrFail));
    assert!(!a.show_add_dialog);
    assert_eq!(a.config.servers.len(), 1);
    assert_eq!(a.config.servers[0].name, "notion");
    match &a.config.servers[0].ty {
        UpstreamType::Http { url } => assert_eq!(url, "https://mcp.notion.com/mcp"),
        _ => panic!("expected http"),
    }
    assert_eq!(message(&a), "Added server: notion");
}

#[test]
fn add_dialog_creates_stdio_server() {
    let mut a = app_with(vec![]);
    a.handle_key(Key::Char('a'), 0);
    a.handle_key(Key::Char('f'), 0);
    a.handle_key(Key::Char('s'), 0);
    a.handle_key(Key::Tab, 0);
    a.handle_key(Key::Tab, 0);
    assert!(matches!(a.add_dialog_type, AddDialogType::Stdio));
    assert_eq!(a.add_dialog_focus, 0);
    a.handle_key(Key::Tab, 0);
    for c in "  npx  -y\tserver-fs /tmp ".chars() {
        a.handle_key(Key::Char(c), 0);
    }
    a.handle_key(Key::Enter, 0);
    match &a.config.servers[0].ty {
        UpstreamType::Stdio { command, args } => {
            assert_eq!(command, "npx");
            assert_eq!(args, &vec!["-y".to_string(), "server-fs".to_string(), "/tmp".to_string()]);
        }
        _ => panic!("expected stdio"),
    }
}

#[test]
fn add_dialog_with_blank_field_adds_nothing() {
    let mut a = app_with(vec![]);
    a.handle_key(Key::Char('a'), 0);
    a.handle_key(Key::Char('x'), 0);
    assert!(matches!(a.handle_key(Key::Enter, 0), KeyAction::Nothing));
    assert!(!a.show_add_dialog);
    assert!(a.config.servers.is_empty());
    a.handle_key(Key::Char('a'), 0);
    a.handle_key(Key::Esc, 0);
    assert!(!a.show_add_dialog);
}

#[test]
fn discovered_tools_fill_the_cache() {
    let mut a = app_with(vec![http("n", "https://x.com")]);
    let tools = vec![discovered_tool("t1".to_string(), Some("d".to_string())), discovered_tool("t2".to_string(), None)];
    assert!(matches!(a.oauth_tools_discovered("n".to_string(), tools, 9), KeyAction::SaveConfig));
    assert_eq!(a.tool_cache.len(), 1);
    assert_eq!(a.tool_cache[0].tools[1].description, "");
    assert_eq!(message(&a), "OAuth ok for 'n'. 2 tools discovered. Press Enter to view.");
    a.oauth_tools_discovered("n".to_string(), vec![], 10);
    assert_eq!(a.tool_cache.len(), 1);
    assert!(a.tool_cache[0].tools.is_empty());
    a.oauth_discovery_failed("n", "timeout", 11);
    assert_eq!(message(&a), "OAuth ok for 'n', but tool discovery failed: timeout");
    a.oauth_login_failed("denied", 12);
    assert_eq!(message(&a), "OAuth login failed: denied");
}
