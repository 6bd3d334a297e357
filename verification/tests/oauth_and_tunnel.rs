use mcp_tunnel::error::AppError;
use mcp_tunnel::mcp::oauth::{
    callback_request_path, check_callback, credential_file_name, extract_state_from_url, token_facts_from_json, token_still_valid, check_parsed_callback, state_from_parsed, CallbackReply,
    FileCredentialStore,
};
use mcp_tunnel::tunnel::{bin_path_in, bin_dir_in, download_url_for, extract_url, tunnel_url_candidate, tunnel_url_in_line};
use mcp_tunnel::url_parts::ParsedUrl;
use std::path::PathBuf;

fn oauth_message<T>(r: Result<T, AppError>) -> String {
    match r {
        Err(AppError::OAuth(m)) => m,
        _ => panic!("expected an OAuth error"),
    }
}

#[test]
fn state_is_read_from_authorization_url() {
    let url = "https://auth.example.com/authorize?response_type=code&state=abc%20123&state=second";
    assert_eq!(extract_state_from_url(url).as_deref(), Some("abc 123"));
    assert_eq!(extract_state_from_url("https://auth.example.com/authorize?code=1"), None);
    assert_eq!(extract_state_from_url("not a url"), None);
}

#[test]
fn request_line_checks() {
    assert_eq!(callback_request_path("GET /callback?code=1&state=s HTTP/1.1\r\n").ok().unwrap(), "/callback?code=1&state=s");
    assert_eq!(oauth_message(callback_request_path("GET\r\n")), "invalid HTTP request");
    assert_eq!(oauth_message(callback_request_path("POST /callback HTTP/1.1\r\n")), "unsupported HTTP method: POST");
    let long = format!("GET /{} HTTP/1.1", "a".repeat(5000));
    assert_eq!(oauth_message(callback_request_path(&long)), "request line too long");
}

#[test]
fn callback_with_matching_state_succeeds() {
    let (reply, result) = check_callback("/callback?code=c0de&state=xyz", "xyz");
    assert!(matches!(reply, CallbackReply::Success));
    let (code, state) = result.ok().unwrap();
    assert_eq!(code, "c0de");
    assert_eq!(state, "xyz");
}

#[test]
fn callback_with_other_state_is_forbidden() {
    let (reply, result) = check_callback("/callback?code=c0de&state=evil", "xyz");
    assert!(matches!(reply, CallbackReply::Forbidden));
    assert_eq!(oauth_message(result), "CSRF token validation failed: possible attack");
}

#[test]
fn callback_errors() {
    let (reply, result) = check_callback("/callback?error=access_denied&error_description=no", "s");
    assert!(matches!(reply, CallbackReply::NoReply));
    assert_eq!(oauth_message(result), "OAuth authorization error: access_denied - no");
    let (_, result) = check_callback("/callback?error=x", "s");
    assert_eq!(oauth_message(result), "OAuth authorization error: x - ");
    let (_, result) = check_callback("/callback?state=s", "s");
    assert_eq!(oauth_message(result), "missing 'code' in callback");
    let (_, result) = check_callback("/callback?code=1", "s");
    assert_eq!(oauth_message(result), "missing 'state' in callback");
}

#[test]
fn callback_uses_last_repeated_parameter() {
    let (reply, result) = check_callback("/callback?code=a&state=evil&code=b&state=good", "good");
    assert!(matches!(reply, CallbackReply::Success));
    let (code, _) = result.ok().unwrap();
    assert_eq!(code, "b");
}

#[test]
fn callback_url_that_does_not_parse() {
    let (reply, result) = check_callback(":bad", "s");
    assert!(matches!(reply, CallbackReply::NoReply));
    let expected = format!(
        "failed to parse callback URL: {}",
        url::Url::parse("http://localhost:bad").unwrap_err()
    );
    assert_eq!(oauth_message(result), expected);
}

#[test]
fn credential_file_per_server() {
    assert_eq!(credential_file_name("notion"), "notion.json");
    let store = FileCredentialStore::new("notion");
    assert!(store.path.ends_with("mcp-tunnel/oauth/notion.json"));
}

#[test]
fn tunnel_url_is_extracted() {
    let line = "2024-01-01 INF |  https://quiet-forest-1234.trycloudflare.com  |";
    assert_eq!(extract_url(line).as_deref(), Some("https://quiet-forest-1234.trycloudflare.com"));
    assert_eq!(extract_url("see https://abc.trycloudflare.com)."), Some("https://abc.trycloudflare.com".to_string()));
    assert_eq!(extract_url("https://example.com is not it"), None);
    assert_eq!(extract_url("no url here trycloudflare.com"), None);
}

#[test]
fn tunnel_url_domain_check_ignores_case() {
    let line = "Visit https://ABC.TryCloudflare.COM now";
    assert_eq!(tunnel_url_in_line(line).as_deref(), Some("https://ABC.TryCloudflare.COM"));
    assert_eq!(tunnel_url_in_line("https://abc.example.com"), None);
}

#[test]
fn download_urls() {
    let (u, tgz) = download_url_for("linux", "x86_64").ok().unwrap();
    assert_eq!(u, "https://github.com/cloudflare/cloudflared/releases/latest/download/cloudflared-linux-amd64");
    assert!(!tgz);
    let (u, tgz) = download_url_for("macos", "aarch64").ok().unwrap();
    assert!(u.ends_with("darwin-arm64.tgz"));
    assert!(tgz);
    match download_url_for("windows", "x86_64") {
        Err(AppError::Tunnel(m)) => assert_eq!(m, "Unsupported platform: windows-x86_64"),
        _ => panic!("expected a tunnel error"),
    }
}

#[test]
fn bin_dir_needs_a_data_directory() {
    let d = bin_dir_in(Some(std::path::PathBuf::from("/data"))).ok().unwrap();
    assert_eq!(d, std::path::PathBuf::from("/data/mcp-tunnel"));
    match bin_dir_in(None) {
        Err(AppError::Config(m)) => assert_eq!(m, "Could not determine data directory"),
        _ => panic!("expected a configuration error"),
    }
}

#[test]
fn token_lifetime() {
    assert!(token_still_valid(Some(100), Some(60), 159));
    assert!(!token_still_valid(Some(100), Some(60), 160));
    assert!(!token_still_valid(Some(100), Some(0), 100));
    assert!(token_still_valid(None, Some(60), u64::MAX));
    assert!(token_still_valid(Some(100), None, u64::MAX));
    assert!(token_still_valid(Some(u64::MAX), Some(1), u64::MAX));
}

fn parsed(pairs: &[(&str, &str)]) -> Result<ParsedUrl, String> {
    Ok(ParsedUrl {
        has_host: true,
        scheme: "http".to_string(),
        query_pairs: pairs.iter().map(|(k, v)| (k.to_string(), v.to_string())).collect(),
    })
}

#[test]
fn parsed_callback_checks() {
    let (reply, r) = check_parsed_callback(parsed(&[("code", "c"), ("state", "s")]), "s");
    assert!(matches!(reply, CallbackReply::Success));
    assert_eq!(r.ok().unwrap(), ("c".to_string(), "s".to_string()));
    let (reply, r) = check_parsed_callback(parsed(&[("code", "c"), ("state", "x")]), "s");
    assert!(matches!(reply, CallbackReply::Forbidden));
    assert_eq!(oauth_message(r), "CSRF token validation failed: possible attack");
    let (reply, r) = check_parsed_callback(Err("bad".to_string()), "s");
    assert!(matches!(reply, CallbackReply::NoReply));
    assert_eq!(oauth_message(r), "failed to parse callback URL: bad");
    assert_eq!(state_from_parsed(&parsed(&[("state", "a"), ("state", "b")])).as_deref(), Some("a"));
    assert_eq!(state_from_parsed(&Err("bad".to_string())), None);
}

#[test]
fn tunnel_candidates() {
    assert_eq!(
        tunnel_url_candidate("see https://x.trycloudflare.com/path), ok").as_deref(),
        Some("https://x.trycloudflare.com/path")
    );
    assert_eq!(tunnel_url_candidate("see https://example.com"), None);
    assert_eq!(tunnel_url_candidate("no url"), None);
}

#[test]
fn credential_store_under_data_dir() {
    let s = FileCredentialStore::new_in(Some(PathBuf::from("/data")), "notion");
    assert_eq!(s.path, PathBuf::from("/data/mcp-tunnel/oauth/notion.json"));
    let s = FileCredentialStore::new_in(None, "x");
    assert_eq!(s.path, PathBuf::from("./mcp-tunnel/oauth/x.json"));
}

#[test]
fn cloudflared_path_under_data_dir() {
    let p = bin_path_in(Some(PathBuf::from("/data"))).ok().unwrap();
    assert_eq!(p, PathBuf::from("/data/mcp-tunnel/cloudflared"));
    match bin_path_in(None) {
        Err(AppError::Config(m)) => assert_eq!(m, "Could not determine data directory"),
        _ => panic!("expected a config error"),
    }
}

#[test]
fn stored_token_text() {
    let json = r#"{"client_id":"cid","token_response":{"access_token":"at","token_type":"bearer","expires_in":3600,"refresh_token":"rt"},"granted_scopes":[],"token_received_at":100}"#;
    let f = token_facts_from_json(json).ok().unwrap().unwrap();
    assert_eq!(f.access_token, "at");
    assert_eq!(f.refresh_token.as_deref(), Some("rt"));
    assert_eq!(f.client_id, "cid");
    assert_eq!(f.received_at, Some(100));
    assert_eq!(f.lifetime_secs, Some(3600));
    let none = r#"{"client_id":"cid","token_response":null}"#;
    assert!(token_facts_from_json(none).ok().unwrap().is_none());
    match token_facts_from_json("not json") {
        Err(AppError::OAuth(m)) => assert!(!m.is_empty()),
        _ => panic!("expected an OAuth error"),
    }
}
