use mcp_tunnel::app::App;
use mcp_tunnel::config::{Config, ServerConfig, ToolCache, ToolInfo, TunnelConfig, TunnelMode, UpstreamType};
use mcp_tunnel::error::AppError;
use mcp_tunnel::mcp::client::{
    apply_filter, bearer_header_value, plan_tool_listing, should_refresh, next_token_step, StoredTokenFacts, TokenAction, TokenEvent, TokenState,
    PkceOutcome, RefreshOutcome,
};
use mcp_tunnel::otel::uses_http_exporter;
use mcp_tunnel::server::audit::{AuditDirection, AuditLog};
use mcp_tunnel::text::{char_is_whitespace, decimal_text, split_words, trimmed, two_digit_text};
use mcp_tunnel::view::{
    audit_line, audit_panel_title, audit_view_positions, centered_percentages, clock, help_text, local_endpoint,
    more_tools_line, server_list_line, server_tool_summary_line, server_tools_summary, target_line, tool_list_line, tools_panel,
    truncate_text, tunnel_status, dialog_view, DescLine, ToolsPanel, UrlState,
};
use mcp_tunnel::app::AddDialogType;
use mcp_tunnel::tui::Key;

fn server(name: &str, enabled: &[&str], disabled: &[&str]) -> ServerConfig {
    ServerConfig {
        name: name.to_string(),
        ty: UpstreamType::Stdio { command: "cmd".to_string(), args: vec![] },
        enabled_tools: enabled.iter().map(|s| s.to_string()).collect(),
        disabled_tools: disabled.iter().map(|s| s.to_string()).collect(),
    }
}

fn strings(v: &[&str]) -> Vec<String> {
    v.iter().map(|s| s.to_string()).collect()
}

#[test]
fn filter_keeps_allowed_positions() {
    let sc = server("s", &[], &["b"]);
    assert_eq!(apply_filter(Some(&sc), &strings(&["a", "b", "c"])), vec![0, 2]);
    assert_eq!(apply_filter(None, &strings(&["a", "b"])), vec![0, 1]);
    let only = server("s", &["c"], &[]);
    assert_eq!(apply_filter(Some(&only), &strings(&["a", "b", "c"])), vec![2]);
}

#[test]
fn listing_prefixes_and_filters() {
    let ups = vec![
        ("fs".to_string(), strings(&["read", "write"])),
        ("notion".to_string(), strings(&["search", "delete"])),
    ];
    let configs = vec![server("notion", &[], &["delete"])];
    let listed = plan_tool_listing(&ups, &configs).ok().unwrap();
    let names: Vec<(usize, usize, String)> = listed.into_iter().map(|t| (t.upstream, t.tool, t.name)).collect();
    assert_eq!(
        names,
        vec![
            (0, 0, "fs__read".to_string()),
            (0, 1, "fs__write".to_string()),
            (1, 0, "notion__search".to_string())
        ]
    );
}

#[test]
fn listing_fails_on_tool_with_delimiter() {
    let ups = vec![("fs".to_string(), strings(&["ok", "bad__name"]))];
    match plan_tool_listing(&ups, &vec![]) {
        Err(AppError::Config(m)) => assert_eq!(m, "tool name 'bad__name' contains reserved delimiter '__'"),
        _ => panic!("expected a configuration error"),
    }
    let filtered = vec![server("fs", &[], &["bad__name"])];
    assert_eq!(plan_tool_listing(&ups, &filtered).ok().unwrap().len(), 1);
}

#[test]
fn credentials_decisions() {
    assert_eq!(bearer_header_value("tok"), "Bearer tok");
    assert!(should_refresh(true, "client"));
    assert!(!should_refresh(true, ""));
    assert!(!should_refresh(false, "client"));
}

fn facts(received: Option<u64>, refresh: Option<&str>, client: &str) -> StoredTokenFacts {
    StoredTokenFacts {
        access_token: "old".to_string(),
        refresh_token: refresh.map(|r| r.to_string()),
        client_id: client.to_string(),
        received_at: received,
        lifetime_secs: Some(60),
    }
}

#[test]
fn token_choice_steps() {
    let (s, a) = next_token_step(TokenState::Start, TokenEvent::Loaded(Some(facts(Some(100), None, ""))), 120);
    assert!(matches!(s, TokenState::Done));
    assert!(matches!(a, TokenAction::UseStored(ref t) if t == "old"));
    let (s, a) = next_token_step(TokenState::Start, TokenEvent::Loaded(Some(facts(Some(100), Some("r"), "c"))), 160);
    assert!(matches!(s, TokenState::Refreshing));
    match a {
        TokenAction::Refresh { client_id, refresh_token } => {
            assert_eq!(client_id, "c");
            assert_eq!(refresh_token, "r");
        }
        _ => panic!("expected a refresh"),
    }
    let (s, a) = next_token_step(TokenState::Start, TokenEvent::Loaded(Some(facts(Some(100), Some("r"), ""))), 160);
    assert!(matches!(s, TokenState::Authorizing) && matches!(a, TokenAction::RunPkce));
    let (s, a) = next_token_step(TokenState::Start, TokenEvent::Loaded(None), 0);
    assert!(matches!(s, TokenState::Authorizing) && matches!(a, TokenAction::RunPkce));
    let (s, a) = next_token_step(TokenState::Refreshing, TokenEvent::RefreshEnded(RefreshOutcome::Refreshed("n".to_string())), 0);
    assert!(matches!(s, TokenState::Done));
    assert!(matches!(a, TokenAction::SaveAndUse(ref t) if t == "n"));
    let (s, a) = next_token_step(TokenState::Refreshing, TokenEvent::RefreshEnded(RefreshOutcome::Failed), 0);
    assert!(matches!(s, TokenState::Authorizing) && matches!(a, TokenAction::RunPkce));
    let (s, a) = next_token_step(TokenState::Authorizing, TokenEvent::PkceEnded(PkceOutcome::Authorized("t".to_string())), 0);
    assert!(matches!(s, TokenState::Done));
    assert!(matches!(a, TokenAction::SaveAndUse(ref t) if t == "t"));
    let (s, a) = next_token_step(TokenState::Authorizing, TokenEvent::PkceEnded(PkceOutcome::NoAuthorizationSupport), 0);
    assert!(matches!(s, TokenState::Done) && matches!(a, TokenAction::ConnectWithoutToken));
    let (s, a) = next_token_step(TokenState::Done, TokenEvent::Loaded(None), 0);
    assert!(matches!(s, TokenState::Done) && matches!(a, TokenAction::Nothing));
}

#[test]
fn otlp_protocol_choice() {
    assert!(uses_http_exporter("http/protobuf"));
    assert!(uses_http_exporter("http/json"));
    assert!(!uses_http_exporter("grpc"));
}

#[test]
fn text_helpers() {
    assert_eq!(split_words("  a\tb \n c "), strings(&["a", "b", "c"]));
    assert!(split_words(" \u{2003} ").is_empty());
    assert_eq!(trimmed("\u{3000} x y \r\n"), "x y");
    assert_eq!(decimal_text(0), "0");
    assert_eq!(decimal_text(18446744073709551615), "18446744073709551615");
    assert_eq!(two_digit_text(7), "07");
    assert_eq!(two_digit_text(42), "42");
}

#[test]
fn truncation() {
    assert_eq!(truncate_text("abcdef", 6), "abcdef");
    assert_eq!(truncate_text("abcdefg", 6), "abc...");
    assert_eq!(truncate_text("ééééé", 4), "é...");
    assert_eq!(truncate_text("abcd", 2), "...");
}

#[test]
fn clock_matches_chrono() {
    for t in [0i64, 59, 3600 * 13 + 61, 1_714_000_000, -1, -86_400, -90_061] {
        let dt = chrono::DateTime::from_timestamp(t, 0).unwrap();
        assert_eq!(clock(t), dt.format("%H:%M:%S").to_string());
    }
}

#[test]
fn audit_lines() {
    let call = AuditLog::call(
        "fs".to_string(),
        Some("fs__read".to_string()),
        Some(serde_json::from_str::<serde_json::Value>("{\"path\": \"/very/long/path/to/a/file.txt\"}").unwrap()),
        3723,
    );
    assert_eq!(call.duration_ms, 0);
    assert_eq!(audit_line(&call), "[01:02:03] [CALL] fs → fs__read | args: {\"path\":\"/very/long/path/to... | 0ms");
    let err = AuditLog::error("fs".to_string(), None, "boom".to_string(), 12, 0);
    assert_eq!(audit_line(&err), "[00:00:00] [ERR] fs → - | ERR: boom");
    let list = AuditLog::list("notion".to_string(), 12, 0);
    assert_eq!(list.tool.as_deref(), Some("12 tools"));
    assert!(matches!(list.direction, AuditDirection::List));
    let resp = AuditLog::response("fs".to_string(), None, Some(serde_json::Value::from(1)), 250, 60);
    assert_eq!(audit_line(&resp), "[00:01:00] [RESP] fs → - | result: 1 | 250ms");
}

#[test]
fn audit_panel_rows() {
    assert_eq!(audit_view_positions(5, 1, 5), vec![3, 2, 1]);
    assert_eq!(audit_view_positions(3, 0, 10), vec![2, 1, 0]);
    assert_eq!(audit_view_positions(3, 3, 10), Vec::<usize>::new());
    assert_eq!(audit_panel_title(7), "Audit Log (7 entries)");
}

fn app_with_tools(n: usize, folded: bool, selected: usize) -> App {
    let mut a = App::new(Config { servers: vec![server("s", &[], &["t1"])], tunnel: TunnelConfig::default() });
    let tools = (0..n)
        .map(|i| ToolInfo { name: format!("t{}", i), description: if i == 0 { String::new() } else { "d".repeat(40) }, enabled: true })
        .collect();
    a.tool_cache = vec![ToolCache { server: "s".to_string(), tools }];
    a.enter_tools_view();
    a.tools_folded = folded;
    a.selected_tool = selected;
    a
}

#[test]
fn tools_panel_scrolls_to_selection() {
    let a = app_with_tools(10, false, 7);
    match tools_panel(&a, 30, 14) {
        ToolsPanel::Cards { title, summary, cards } => {
            assert_eq!(title, "Tools — s");
            assert_eq!(summary, "  ▾ 10 tools · 9 active · 1 disabled");
            assert_eq!(cards.len(), 3);
            assert_eq!(cards[2].name_part, "▶ ┃ t7");
            assert!(cards[2].selected);
            assert_eq!(cards[0].name_part, "  ┃ t5");
            assert_eq!(cards[0].indicator, "  ● active");
            let pad = 28usize.saturating_sub(cards[0].name_part.len() + cards[0].indicator.len());
            assert_eq!(cards[0].padding, pad);
            match &cards[0].description {
                DescLine::Text(t) => assert_eq!(t, &format!("{}...", "d".repeat(21))),
                _ => panic!("expected a description"),
            }
        }
        _ => panic!("expected cards"),
    }
}

#[test]
fn tools_panel_folded_and_disabled() {
    let a = app_with_tools(3, true, 0);
    match tools_panel(&a, 40, 12) {
        ToolsPanel::Cards { title, cards, .. } => {
            assert_eq!(title, "Tools — s [folded]");
            assert_eq!(cards.len(), 3);
            assert!(matches!(cards[0].description, DescLine::Hidden));
            assert!(cards[1].disabled);
            assert_eq!(cards[1].name_part, "  │ t1");
            assert_eq!(cards[1].indicator, "  ○ disabled");
        }
        _ => panic!("expected cards"),
    }
    let b = app_with_tools(1, false, 0);
    match tools_panel(&b, 40, 12) {
        ToolsPanel::Cards { cards, .. } => assert!(matches!(cards[0].description, DescLine::Missing)),
        _ => panic!("expected cards"),
    }
}

#[test]
fn tools_panel_notes() {
    let a = app_with_tools(0, false, 0);
    match tools_panel(&a, 40, 12) {
        ToolsPanel::Note { title, text } => {
            assert_eq!(title, "Tools — s");
            assert!(text.starts_with("No tools discovered"));
        }
        _ => panic!("expected a note"),
    }
    let mut b = App::new(Config::default());
    b.tools_for_server = Some("x".to_string());
    match tools_panel(&b, 40, 12) {
        ToolsPanel::Note { text, .. } => assert!(text.starts_with("Loading tools...")),
        _ => panic!("expected a note"),
    }
}

#[test]
fn server_detail_texts() {
    let http = UpstreamType::Http { url: "https://x.com".to_string() };
    assert_eq!(target_line(&http), "https://x.com");
    let cmd = UpstreamType::Stdio { command: "npx".to_string(), args: strings(&["-y", "fs"]) };
    assert_eq!(target_line(&cmd), "npx -y fs");
    let bare = UpstreamType::Stdio { command: "run".to_string(), args: vec![] };
    assert_eq!(target_line(&bare), "run");
    assert_eq!(server_tool_summary_line(0, 0), "No tools discovered");
    assert_eq!(server_tool_summary_line(12, 2), "12 tools · 10 active · 2 disabled");
    assert_eq!(more_tools_line(7).as_deref(), Some("    ... and 2 more"));
    assert_eq!(more_tools_line(5), None);
    assert_eq!(server_list_line("a", true), "> a");
    assert_eq!(server_list_line("b", false), "  b");
}

#[test]
fn tool_list_lines() {
    let t = ToolInfo { name: "x".to_string(), description: String::new(), enabled: true };
    assert_eq!(tool_list_line(&t), "[x] x");
    let long = ToolInfo { name: "y".to_string(), description: "a".repeat(51), enabled: false };
    assert_eq!(tool_list_line(&long), format!("[ ] y - {}...", "a".repeat(50)));
    let short = ToolInfo { name: "z".to_string(), description: "hello".to_string(), enabled: true };
    assert_eq!(tool_list_line(&short), "[x] z - hello");
}

#[test]
fn layout_and_status() {
    assert_eq!(centered_percentages(60), (20, 60, 20));
    assert_eq!(centered_percentages(45), (27, 45, 27));
    let mut a = App::new(Config::default());
    assert!(help_text(&a).contains("Enter:tools"));
    a.next_tab();
    assert!(help_text(&a).contains("Space:toggle"));
    a.prev_tab();
    let s = tunnel_status(&a);
    assert_eq!(s.status_label, "Stopped");
    assert_eq!(s.url, "Not available");
    assert!(matches!(s.url_state, UrlState::Off));
    a.quick_tunnel_running = true;
    a.tunnel_url = Some("https://q.trycloudflare.com".to_string());
    a.config.tunnel.mode = TunnelMode::Quick;
    let s = tunnel_status(&a);
    assert_eq!(s.url, "https://q.trycloudflare.com/mcp");
    assert_eq!(s.mode_label, "Quick (TryCloudflare)");
    assert!(matches!(s.url_state, UrlState::NoServer));
    assert_eq!(local_endpoint(&a), "http://127.0.0.1:3000/mcp");
}

#[test]
fn tools_note_in_a_tiny_panel() {
    let mut a = app_with_tools(0, false, 0);
    a.tool_cache = vec![];
    match tools_panel(&a, 10, 1) {
        ToolsPanel::Note { title, text } => {
            assert_eq!(title, "Tools — s");
            assert!(text.starts_with("Loading tools..."));
        }
        _ => panic!("expected a note"),
    }
}

#[test]
fn add_dialog_view_marks_focus() {
    let mut a = App::new(Config { servers: vec![], tunnel: TunnelConfig::default() });
    a.handle_key(Key::Char('a'), 0);
    a.handle_key(Key::Char('x'), 0);
    let v = dialog_view(&a);
    assert_eq!(v.title, "Add HTTP Server");
    assert_eq!(
        v.content,
        "Type: HTTP\n\nName: x <--\nURL: \n\nEnter: confirm | Esc: cancel | Tab: next field / switch type"
    );
    a.handle_key(Key::Tab, 0);
    a.handle_key(Key::Tab, 0);
    assert!(matches!(a.add_dialog_type, AddDialogType::Stdio));
    a.is_edit_mode = true;
    let v = dialog_view(&a);
    assert_eq!(v.title, "Edit stdio Server");
    assert_eq!(v.content, "Type: stdio\n\nName: x <--\nCommand: \n\nEnter: confirm | Esc: cancel | Tab: next field");
    a.add_dialog_focus = 1;
    a.add_dialog_fields = vec!["n".to_string()];
    let v = dialog_view(&a);
    assert_eq!(v.content, "Type: stdio\n\nName: n\nCommand:  <--\n\nEnter: confirm | Esc: cancel | Tab: next field");
}

#[test]
fn server_summary_counts_cached_tools_only() {
    let s = server("s", &[], &["a", "gone1", "gone2", "gone3"]);
    let tools: Vec<ToolInfo> = ["a", "b"]
        .iter()
        .map(|n| ToolInfo { name: n.to_string(), description: String::new(), enabled: true })
        .collect();
    assert_eq!(server_tools_summary(&s, &tools), "2 tools · 1 active · 1 disabled");
    assert_eq!(server_tools_summary(&s, &vec![]), "No tools discovered");
}

#[test]
fn tools_summary_without_room_for_cards() {
    let a = app_with_tools(4, false, 2);
    match tools_panel(&a, 30, 5) {
        ToolsPanel::Cards { summary, cards, .. } => {
            assert_eq!(summary, "  ▾ 4 tools · 3 active · 1 disabled");
            assert!(cards.is_empty());
        }
        _ => panic!("expected cards"),
    }
}

#[test]
fn whitespace_matches_std() {
    for u in 0u32..=0x10FFFF {
        if let Some(c) = char::from_u32(u) {
            assert_eq!(char_is_whitespace(c), c.is_whitespace(), "U+{:04X}", u);
        }
    }
}

#[test]
fn call_end_records() {
    let r = AuditLog::call_ended("fs".to_string(), Some("fs__a".to_string()), Ok(Some(serde_json::Value::from(2))), 7, 60);
    assert!(matches!(r.direction, AuditDirection::Response));
    assert_eq!(r.result, Some(serde_json::Value::from(2)));
    assert_eq!(r.error, None);
    let e = AuditLog::call_ended("fs".to_string(), None, Err("boom".to_string()), 9, 60);
    assert!(matches!(e.direction, AuditDirection::Error));
    assert_eq!(e.error.as_deref(), Some("boom"));
    assert_eq!(e.result, None);
    assert_eq!(e.duration_ms, 9);
}
