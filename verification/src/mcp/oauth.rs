//! OAuth helpers: the CSRF state of an authorization URL, the checks on
//! the browser's callback request, and where tokens are stored.

use vstd::prelude::*;
use crate::error::AppError;
use vstd::string::StringSliceAdditionalSpecFns;
use crate::url_parts::{parse_url, url_parse, parse_view, ParsedUrl};
use crate::text::{join2, join3, owned, text_eq, split_words, words};
use crate::paths::{data_local_dir, path_from, path_join, joined_path, path_of_text};
use std::path::PathBuf;
use crate::mcp::client::StoredTokenFacts;

verus! {

/// The page sent to the browser when the callback's state does not match.
pub const CALLBACK_FORBIDDEN_RESPONSE: &'static str = "HTTP/1.1 403 Forbidden\r\nContent-Type: text/html; charset=utf-8\r\nConnection: close\r\n\r\n<!DOCTYPE html><html><head><title>CSRF Validation Failed</title></head><body style='font-family:sans-serif;text-align:center;padding-top:50px;'><h1 style='color:red;'>CSRF Validation Failed</h1><p>The authorization request could not be validated. Please try again.</p></body></html>";

/// The page sent to the browser when the authorization succeeded.
pub const CALLBACK_SUCCESS_RESPONSE: &'static str = "HTTP/1.1 200 OK\r\nContent-Type: text/html; charset=utf-8\r\nConnection: close\r\n\r\n<!DOCTYPE html><html><head><title>Authorization Successful</title></head><body style='font-family:sans-serif;text-align:center;padding-top:50px;'><h1>Authorization Successful</h1><p>You can close this window and return to the application.</p></body></html>";

/// The longest request line accepted, in bytes.
pub const MAX_REQUEST_LINE_BYTES: usize = 4096;

/// The value of the first pair with key `key`.
pub open spec fn first_value(pairs: Seq<(Seq<char>, Seq<char>)>, key: Seq<char>) -> Option<Seq<char>>
    decreases pairs.len(),
{
    if pairs.len() == 0 {
        None
    } else if pairs[0].0 == key {
        Some(pairs[0].1)
    } else {
        first_value(pairs.drop_first(), key)
    }
}

/// The value of the last pair with key `key` (what a map built from the
/// pairs in order keeps).
pub open spec fn last_value(pairs: Seq<(Seq<char>, Seq<char>)>, key: Seq<char>) -> Option<Seq<char>>
    decreases pairs.len(),
{
    if pairs.len() == 0 {
        None
    } else if pairs.last().0 == key {
        Some(pairs.last().1)
    } else {
        last_value(pairs.drop_last(), key)
    }
}

/// The pairs of a parsed URL as plain values.
pub open spec fn pair_views(v: Seq<(String, String)>) -> Seq<(Seq<char>, Seq<char>)> {
    v.map_values(|p: (String, String)| (p.0@, p.1@))
}

/// The value of the first pair with key `key`.
pub fn find_first_value(pairs: &Vec<(String, String)>, key: &str) -> (r: Option<String>)
    ensures
        match (r, first_value(pair_views(pairs@), key@)) {
            (Some(a), Some(b)) => a@ == b,
            (None, None) => true,
            _ => false,
        },
{
    let n = pairs.len();
    let mut i: usize = 0;
    assert(pair_views(pairs@).subrange(0, n as int) =~= pair_views(pairs@));
    while i < n
        invariant
            n == pairs@.len(),
            i <= n,
            first_value(pair_views(pairs@), key@) == first_value(pair_views(pairs@).subrange(i as int, n as int), key@),
        decreases n - i,
    {
        let ghost rest = pair_views(pairs@).subrange(i as int, n as int);
        assert(rest[0] == (pairs@[i as int].0@, pairs@[i as int].1@));
        if text_eq(pairs[i].0.as_str(), key) {
            return Some(pairs[i].1.clone());
        }
        assert(rest.drop_first() =~= pair_views(pairs@).subrange(i + 1, n as int));
        i = i + 1;
    }
    assert(pair_views(pairs@).subrange(n as int, n as int) =~= Seq::<(Seq<char>, Seq<char>)>::empty());
    None
}

/// The value of the last pair with key `key`.
pub fn find_last_value(pairs: &Vec<(String, String)>, key: &str) -> (r: Option<String>)
    ensures
        match (r, last_value(pair_views(pairs@), key@)) {
            (Some(a), Some(b)) => a@ == b,
            (None, None) => true,
            _ => false,
        },
{
    let n = pairs.len();
    let mut i: usize = n;
    assert(pair_views(pairs@).subrange(0, n as int) =~= pair_views(pairs@));
    while i > 0
        invariant
            n == pairs@.len(),
            i <= n,
            last_value(pair_views(pairs@), key@) == last_value(pair_views(pairs@).subrange(0, i as int), key@),
        decreases i,
    {
        let ghost pre = pair_views(pairs@).subrange(0, i as int);
        assert(pre.last() == (pairs@[i - 1].0@, pairs@[i - 1].1@));
        if text_eq(pairs[i - 1].0.as_str(), key) {
            return Some(pairs[i - 1].1.clone());
        }
        assert(pre.drop_last() =~= pair_views(pairs@).subrange(0, i - 1));
        i = i - 1;
    }
    None
}

/// What extracting the CSRF state of an authorization URL gives: the
/// first `state` query value, when the URL parses.
pub open spec fn state_of_url(url: Seq<char>) -> Option<Seq<char>> {
    state_of_parsed(url_parse(url))
}

/// The CSRF state read from what parsing an authorization URL gave: the
/// first `state` query value, when it parsed.
pub open spec fn state_of_parsed(parsed: Result<(bool, Seq<char>, Seq<(Seq<char>, Seq<char>)>), Seq<char>>) -> Option<Seq<char>> {
    match parsed {
        Ok((_, _, pairs)) => first_value(pairs, "state"@),
        Err(_) => None,
    }
}

/// The `state` query parameter from what parsing an authorization URL gave.
pub fn state_from_parsed(parsed: &Result<ParsedUrl, String>) -> (r: Option<String>)
    ensures
        match (r, state_of_parsed(parse_view(*parsed))) {
            (Some(a), Some(b)) => a@ == b,
            (None, None) => true,
            _ => false,
        },
{
    match parsed {
        Ok(p) => find_first_value(&p.query_pairs, "state"),
        Err(_) => None,
    }
}

/// The `state` query parameter of an authorization URL.
pub fn extract_state_from_url(url: &str) -> (r: Option<String>)
    ensures
        match (r, state_of_url(url@)) {
            (Some(a), Some(b)) => a@ == b,
            (None, None) => true,
            _ => false,
        },
{
    let parsed = parse_url(url);
    state_from_parsed(&parsed)
}

/// What the request line of the callback request gives: the requested
/// path, or the message of the reason it is refused.
pub open spec fn request_path_outcome(line: Seq<char>, byte_len: nat) -> Result<Seq<char>, Seq<char>> {
    let parts = words(line);
    if byte_len > MAX_REQUEST_LINE_BYTES {
        Err("request line too long"@)
    } else if parts.len() < 2 {
        Err("invalid HTTP request"@)
    } else if parts[0] != "GET"@ {
        Err("unsupported HTTP method: "@ + parts[0])
    } else {
        Ok(parts[1])
    }
}

/// Checks the request line of the browser's callback: at most the byte
/// limit, a method and a path, and the method `GET`. Returns the path.
pub fn callback_request_path(line: &str) -> (r: Result<String, AppError>)
    requires
        line.spec_bytes().len() <= usize::MAX,
    ensures
        match (r, request_path_outcome(line@, line.spec_bytes().len())) {
            (Ok(p), Ok(q)) => p@ == q,
            (Err(AppError::OAuth(m)), Err(q)) => m@ == q,
            _ => false,
        },
{
    if line.len() > MAX_REQUEST_LINE_BYTES {
        return Err(AppError::OAuth(owned("request line too long")));
    }
    let parts = split_words(line);
    if parts.len() < 2 {
        return Err(AppError::OAuth(owned("invalid HTTP request")));
    }
    assert(parts@[0]@ == words(line@)[0]);
    assert(parts@[1]@ == words(line@)[1]);
    if !text_eq(parts[0].as_str(), "GET") {
        return Err(AppError::OAuth(join2("unsupported HTTP method: ", parts[0].as_str())));
    }
    Ok(parts[1].clone())
}

/// What the browser is sent back.
pub enum CallbackReply {
    /// Nothing.
    NoReply,
    /// The page saying the state did not match.
    Forbidden,
    /// The page saying the authorization succeeded.
    Success,
}

/// What checking a callback path gives: the reply to send, and the
/// authorization code and state, or the message of the failure.
pub open spec fn callback_outcome(path: Seq<char>, expected: Seq<char>) -> (CallbackReply, Result<(Seq<char>, Seq<char>), Seq<char>>) {
    callback_of_parsed(url_parse("http://localhost"@ + path), expected)
}

/// What checking a callback gives from what parsing its URL gave.
pub open spec fn callback_of_parsed(
    parsed: Result<(bool, Seq<char>, Seq<(Seq<char>, Seq<char>)>), Seq<char>>,
    expected: Seq<char>,
) -> (CallbackReply, Result<(Seq<char>, Seq<char>), Seq<char>>) {
    match parsed {
        Err(e) => (CallbackReply::NoReply, Err("failed to parse callback URL: "@ + e)),
        Ok((_, _, pairs)) => {
            match last_value(pairs, "error"@) {
                Some(err) => {
                    let desc = match last_value(pairs, "error_description"@) {
                        Some(d) => d,
                        None => Seq::empty(),
                    };
                    (CallbackReply::NoReply, Err("OAuth authorization error: "@ + err + " - "@ + desc))
                },
                None => match last_value(pairs, "code"@) {
                    None => (CallbackReply::NoReply, Err("missing 'code' in callback"@)),
                    Some(code) => match last_value(pairs, "state"@) {
                        None => (CallbackReply::NoReply, Err("missing 'state' in callback"@)),
                        Some(state) => if state != expected {
                            (CallbackReply::Forbidden, Err("CSRF token validation failed: possible attack"@))
                        } else {
                            (CallbackReply::Success, Ok((code, state)))
                        },
                    },
                },
            }
        },
    }
}

/// Checks the callback path the browser was redirected to: no OAuth error,
/// a code, and a state equal to the expected CSRF token. Returns the reply
/// to send and the code and state.
pub fn check_callback(path: &str, expected_csrf: &str) -> (r: (CallbackReply, Result<(String, String), AppError>))
    ensures
        r.0 == callback_outcome(path@, expected_csrf@).0,
        match (r.1, callback_outcome(path@, expected_csrf@).1) {
            (Ok((c, s)), Ok((c2, s2))) => c@ == c2 && s@ == s2,
            (Err(AppError::OAuth(m)), Err(m2)) => m@ == m2,
            _ => false,
        },
{
    let full = join2("http://localhost", path);
    check_parsed_callback(parse_url(full.as_str()), expected_csrf)
}

/// Checks a callback from what parsing its URL gave: no OAuth error, a
/// code, and a state equal to the expected CSRF token.
pub fn check_parsed_callback(parsed: Result<ParsedUrl, String>, expected_csrf: &str) -> (r: (CallbackReply, Result<(String, String), AppError>))
    ensures
        r.0 == callback_of_parsed(parse_view(parsed), expected_csrf@).0,
        match (r.1, callback_of_parsed(parse_view(parsed), expected_csrf@).1) {
            (Ok((c, s)), Ok((c2, s2))) => c@ == c2 && s@ == s2,
            (Err(AppError::OAuth(m)), Err(m2)) => m@ == m2,
            _ => false,
        },
{
    let parsed = match parsed {
        Ok(p) => p,
        Err(e) => {
            return (CallbackReply::NoReply, Err(AppError::OAuth(join2("failed to parse callback URL: ", e.as_str()))));
        },
    };
    let pairs = &parsed.query_pairs;
    if let Some(err) = find_last_value(pairs, "error") {
        let desc = match find_last_value(pairs, "error_description") {
            Some(d) => d,
            None => String::new(),
        };
        let m = join3("OAuth authorization error: ", err.as_str(), " - ");
        return (CallbackReply::NoReply, Err(AppError::OAuth(join2(m.as_str(), desc.as_str()))));
    }
    let code = match find_last_value(pairs, "code") {
        Some(c) => c,
        None => {
            return (CallbackReply::NoReply, Err(AppError::OAuth(owned("missing 'code' in callback"))));
        },
    };
    let state = match find_last_value(pairs, "state") {
        Some(s) => s,
        None => {
            return (CallbackReply::NoReply, Err(AppError::OAuth(owned("missing 'state' in callback"))));
        },
    };
    if !text_eq(state.as_str(), expected_csrf) {
        return (CallbackReply::Forbidden, Err(AppError::OAuth(owned("CSRF token validation failed: possible attack"))));
    }
    (CallbackReply::Success, Ok((code, state)))
}

/// CSRF protection: a callback is accepted only with the expected state,
/// and only then is the success page sent.
pub proof fn lemma_callback_accepts_only_expected_state(path: Seq<char>, expected: Seq<char>)
    ensures
        callback_outcome(path, expected).1 matches Ok((_, state)) ==> state == expected,
        callback_outcome(path, expected).0 is Success <==> callback_outcome(path, expected).1 is Ok,
{
}

/// Whether a stored token may still be used at `now` (seconds since the
/// Unix epoch): when the time it was received and its lifetime are both
/// known, strictly before `received + lifetime`; otherwise it is used and
/// the server decides.
pub open spec fn token_usable(received: Option<u64>, lifetime: Option<u64>, now: u64) -> bool {
    match (received, lifetime) {
        (Some(r), Some(l)) => now < r + l,
        _ => true,
    }
}

/// Decides whether a stored token is used as it is, or refreshed first.
pub fn token_still_valid(received_at: Option<u64>, lifetime_secs: Option<u64>, now: u64) -> (r: bool)
    ensures
        r == token_usable(received_at, lifetime_secs, now),
{
    match (received_at, lifetime_secs) {
        (Some(received), Some(lifetime)) => {
            if received > u64::MAX - lifetime {
                true
            } else {
                now < received + lifetime
            }
        },
        _ => true,
    }
}

/// The name of the file a server's OAuth token is stored in.
pub fn credential_file_name(server_name: &str) -> (r: String)
    ensures
        r@ == server_name@ + ".json"@,
{
    join2(server_name, ".json")
}

/// What reading the text of a token file as rmcp's `StoredCredentials`
/// with `serde_json::from_str` gives, as plain values: the stored token's
/// access token, refresh token, client id, time received and lifetime in
/// seconds (none when no token is stored), or the text of the parse error.
pub uninterp spec fn stored_token_of(json: Seq<char>) -> Result<Option<(Seq<char>, Option<Seq<char>>, Seq<char>, Option<u64>, Option<u64>)>, Seq<char>>;

/// Stored token facts as plain values.
pub open spec fn facts_view(f: Option<StoredTokenFacts>) -> Option<(Seq<char>, Option<Seq<char>>, Seq<char>, Option<u64>, Option<u64>)> {
    match f {
        Some(x) => Some(x.parts()),
        None => None,
    }
}

/// Calls `serde_json::from_str` for rmcp's `StoredCredentials` and reads
/// the token's fields (`access_token`, `refresh_token`, `expires_in`
/// through oauth2's `TokenResponse`), or the `Display` text of the error.
/// Claims the outcome is `stored_token_of` of the text.
#[verifier::external_body]
pub(crate) fn parse_stored_token(json: &str) -> (r: Result<Option<StoredTokenFacts>, String>)
    ensures
        match (r, stored_token_of(json@)) {
            (Ok(f), Ok(g)) => facts_view(f) == g,
            (Err(e), Err(m)) => e@ == m,
            _ => false,
        },
{
    match serde_json::from_str::<rmcp::transport::auth::StoredCredentials>(json) {
        Ok(c) => Ok(c.token_response.map(|t| StoredTokenFacts {
            access_token: oauth2::TokenResponse::access_token(&t).secret().clone(),
            refresh_token: oauth2::TokenResponse::refresh_token(&t).map(|x| x.secret().clone()),
            client_id: c.client_id.clone(),
            received_at: c.token_received_at,
            lifetime_secs: oauth2::TokenResponse::expires_in(&t).map(|d| d.as_secs()),
        })),
        Err(e) => Err(e.to_string()),
    }
}

/// What the text of a server's token file holds: the stored token's
/// facts (none when it holds no token), or an OAuth error with the parse
/// error's text.
pub fn token_facts_from_json(json: &str) -> (r: Result<Option<StoredTokenFacts>, AppError>)
    ensures
        match (r, stored_token_of(json@)) {
            (Ok(f), Ok(g)) => facts_view(f) == g,
            (Err(AppError::OAuth(m)), Err(e)) => m@ == e,
            _ => false,
        },
{
    match parse_stored_token(json) {
        Ok(f) => Ok(f),
        Err(e) => Err(AppError::OAuth(e)),
    }
}

/// The token file of server `name` under base directory `base`:
/// `<base>/mcp-tunnel/oauth/<name>.json`.
pub open spec fn credential_path(base: PathBuf, name: Seq<char>) -> PathBuf {
    joined_path(joined_path(joined_path(base, "mcp-tunnel"@), "oauth"@), name + ".json"@)
}

/// The store of server `name` under data directory `data_dir` (the
/// current directory when there is none).
pub open spec fn store_in(data_dir: Option<PathBuf>, name: Seq<char>) -> FileCredentialStore {
    FileCredentialStore {
        path: credential_path(match data_dir { Some(d) => d, None => path_of_text("."@) }, name),
    }
}

/// Where OAuth tokens are stored, per upstream server.
pub struct FileCredentialStore {
    pub path: PathBuf,
}

impl FileCredentialStore {
    /// The store for `server_name` under the given data directory: the
    /// file `<server_name>.json` under `mcp-tunnel/oauth` in it, or in the
    /// current directory when there is none.
    pub fn new_in(data_dir: Option<PathBuf>, server_name: &str) -> (r: FileCredentialStore)
        ensures
            r.path == credential_path(
                match data_dir { Some(d) => d, None => path_of_text("."@) },
                server_name@,
            ),
    {
        let base = match data_dir {
            Some(d) => d,
            None => path_from("."),
        };
        let dir = path_join(&base, "mcp-tunnel");
        let dir = path_join(&dir, "oauth");
        let file = credential_file_name(server_name);
        let path = path_join(&dir, file.as_str());
        proof {
            reveal_strlit("mcp-tunnel");
            reveal_strlit("oauth");
            reveal_strlit(".");
        }
        FileCredentialStore { path }
    }

    /// The store for `server_name` under the local data directory (which
    /// the environment gives, or not).
    pub fn new(server_name: &str) -> (r: FileCredentialStore)
        ensures
            exists|data_dir: Option<PathBuf>| r == #[trigger] store_in(data_dir, server_name@),
    {
        let d = data_local_dir();
        let ghost gd = d;
        let r = FileCredentialStore::new_in(d, server_name);
        assert(r == store_in(gd, server_name@));
        r
    }
}

} // verus!
