//! Key handling of the terminal UI: from the state and a key to the next
//! state and the outside work to perform.

use vstd::prelude::*;
use crate::app::{App, AddDialogType, Tab, tab_after, tab_before};
use crate::config::{ServerConfig, UpstreamType, ToolCache, ToolInfo};
use crate::text::{owned, join2, join3, trimmed, chars_of, string_of_range, push_char, split_words, trim, words};

verus! {

/// The local address the quick tunnel forwards to.
pub const LOCAL_SERVER_URL: &'static str = "http://127.0.0.1:3000";

/// A key press, as far as the UI distinguishes keys.
pub enum Key {
    Char(char),
    Tab,
    BackTab,
    Up,
    Down,
    Enter,
    Esc,
    Backspace,
    Other,
}

/// The outside work a key asks for.
pub enum KeyAction {
    /// Nothing beyond the state change.
    Nothing,
    /// Save the configuration; a failure is not reported.
    SaveConfig,
    /// Save the configuration; a failure ends the UI with that error.
    SaveConfigOrFail,
    /// Run the OAuth login for the server at `index` (an HTTP server
    /// named `name` at `url`), then discover its tools.
    OAuthLogin { index: usize, name: String, url: String },
    /// Delete the stored OAuth token of server `name`.
    ClearToken { name: String },
    /// Start a quick tunnel to `local_url`.
    StartQuickTunnel { local_url: String },
    /// Stop the running quick tunnel.
    StopQuickTunnel,
}

/// `b` is `a` except for the message and its time.
pub open spec fn same_but_message(a: App, b: App) -> bool {
    b == (App { message: b.message, message_time: b.message_time, ..a })
}

/// `b` shows message `msg` set at `now`.
pub open spec fn shows(b: App, msg: Seq<char>, now: u64) -> bool {
    &&& b.message matches Some(m) && m@ == msg
    &&& b.message_time == Some(now)
}

/// `b` is `a` with message `msg` set at `now`.
pub open spec fn only_message(a: App, b: App, msg: Seq<char>, now: u64) -> bool {
    same_but_message(a, b) && shows(b, msg, now)
}

/// Whether the Tools tab is shown.
pub open spec fn in_tools(a: App) -> bool {
    a.current_tab is Tools
}

/// Whether the Servers tab is shown.
pub open spec fn in_servers(a: App) -> bool {
    a.current_tab is Servers
}

/// `x + 1`, saturating.
pub open spec fn sat_inc(x: usize) -> usize {
    if x == usize::MAX { x } else { (x + 1) as usize }
}

/// `x - 1`, saturating.
pub open spec fn sat_dec(x: usize) -> usize {
    if x == 0 { 0 } else { (x - 1) as usize }
}

/// The message for a key that needs an HTTP server.
pub open spec fn oauth_http_only_message() -> Seq<char> {
    "OAuth only supported for HTTP servers"@
}

/// The state after a key press outside the add dialog, and the work asked
/// for.
pub open spec fn main_key_step(a: App, b: App, key: Key, now: u64, act: KeyAction) -> bool {
    if key == Key::Char('q') || key == Key::Char('Q') {
        b == (App { should_quit: true, ..a }) && act is Nothing
    } else if key == Key::Tab {
        b == (App { current_tab: tab_after(a.current_tab), ..a }) && act is Nothing
    } else if key == Key::BackTab {
        b == (App { current_tab: tab_before(a.current_tab), ..a }) && act is Nothing
    } else if key == Key::Up || key == Key::Char('k') {
        &&& act is Nothing
        &&& if in_tools(a) {
            App::prev_tool_step(a, b)
        } else if a.current_tab is Servers {
            App::prev_server_step(a, b)
        } else if a.current_tab is AuditLog {
            b == (App { audit_scroll: sat_inc(a.audit_scroll), ..a })
        } else {
            b == a
        }
    } else if key == Key::Down || key == Key::Char('j') {
        &&& act is Nothing
        &&& if in_tools(a) {
            App::next_tool_step(a, b)
        } else if a.current_tab is Servers {
            App::next_server_step(a, b)
        } else if a.current_tab is AuditLog {
            b == (App { audit_scroll: sat_dec(a.audit_scroll), ..a })
        } else {
            b == a
        }
    } else if key == Key::Enter && in_servers(a) {
        App::enter_tools_step(a, b) && act is Nothing
    } else if key == Key::Char('a') && in_servers(a) {
        &&& act is Nothing
        &&& b.add_dialog_fields@.len() == 2
        &&& b.add_dialog_fields@[0]@.len() == 0
        &&& b.add_dialog_fields@[1]@.len() == 0
        &&& b == (App {
            show_add_dialog: true,
            add_dialog_type: AddDialogType::Http,
            add_dialog_fields: b.add_dialog_fields,
            add_dialog_focus: 0,
            ..a
        })
    } else if key == Key::Char('d') && in_servers(a) {
        &&& App::remove_step(a, App { message: a.message, message_time: a.message_time, ..b })
        &&& shows(b, "Server removed"@, now)
        &&& (if a.selected_server < a.config.servers@.len() { act is SaveConfig } else { act is Nothing })
    } else if key == Key::Char('o') && in_servers(a) {
        if a.selected_server < a.config.servers@.len() {
            let s = a.config.servers@[a.selected_server as int];
            match s.ty {
                UpstreamType::Http { url } => {
                    &&& b == a
                    &&& act matches KeyAction::OAuthLogin { index, name, url: u }
                        && index == a.selected_server && name@ == s.name@ && u@ == url@
                },
                UpstreamType::Stdio { .. } => only_message(a, b, oauth_http_only_message(), now) && act is Nothing,
            }
        } else {
            b == a && act is Nothing
        }
    } else if key == Key::Char('O') && in_servers(a) {
        if a.selected_server < a.config.servers@.len() {
            let name = a.config.servers@[a.selected_server as int].name@;
            &&& only_message(a, b, "OAuth token cleared for '"@ + name + "'"@, now)
            &&& act matches KeyAction::ClearToken { name: n } && n@ == name
        } else {
            b == a && act is Nothing
        }
    } else if key == Key::Char(' ') && in_tools(a) {
        &&& App::toggle_step(a, b)
        &&& (if a.toggle_target() is Some { act is SaveConfig } else { act is Nothing })
    } else if key == Key::Esc && in_tools(a) {
        b == (App { current_tab: Tab::Servers, ..a }) && act is Nothing
    } else if key == Key::Char('f') && in_tools(a) {
        b == (App { tools_folded: !a.tools_folded, ..a }) && act is Nothing
    } else if key == Key::Char('s') {
        only_message(a, b, "Serve: not yet implemented in TUI"@, now) && act is Nothing
    } else if key == Key::Char('t') && a.current_tab is Tunnel {
        &&& b == a
        &&& if a.quick_tunnel_running {
            act is StopQuickTunnel
        } else {
            act matches KeyAction::StartQuickTunnel { local_url } && local_url@ == LOCAL_SERVER_URL@
        }
    } else if key == Key::Char('r') && a.current_tab is Tunnel {
        only_message(a, b, "Named tunnel: use CLI 'mcp-tunnel tunnel run <name>'"@, now) && act is Nothing
    } else if key == Key::Char('c') && a.current_tab is AuditLog {
        &&& b.audit_logs@.len() == 0
        &&& b == (App { audit_logs: b.audit_logs, audit_scroll: 0, ..a })
        &&& act is Nothing
    } else {
        b == a && act is Nothing
    }
}

/// The server the add dialog creates from its trimmed name and value.
pub open spec fn dialog_server_matches(s: ServerConfig, kind: AddDialogType, name: Seq<char>, value: Seq<char>) -> bool {
    &&& s.name@ == name
    &&& s.enabled_tools@.len() == 0
    &&& s.disabled_tools@.len() == 0
    &&& match kind {
        AddDialogType::Http => s.ty matches UpstreamType::Http { url } && url@ == value,
        AddDialogType::Stdio => s.ty matches UpstreamType::Stdio { command, args } && ({
            let w = words(value);
            &&& command@ == w[0]
            &&& args@.len() == w.len() - 1
            &&& forall|i: int| 0 <= i < args@.len() ==> #[trigger] args@[i]@ == w[i + 1]
        }),
    }
}

/// The state after a key press in the add dialog, and the work asked for.
pub open spec fn dialog_key_step(a: App, b: App, key: Key, now: u64, act: KeyAction) -> bool {
    let fields = a.add_dialog_fields@;
    let focus = a.add_dialog_focus;
    if key == Key::Esc {
        b == (App { show_add_dialog: false, ..a }) && act is Nothing
    } else if key == Key::Tab {
        &&& act is Nothing
        &&& if focus == fields.len() - 1 {
            b == (App {
                add_dialog_type: match a.add_dialog_type {
                    AddDialogType::Http => AddDialogType::Stdio,
                    AddDialogType::Stdio => AddDialogType::Http,
                },
                add_dialog_focus: 0,
                ..a
            })
        } else {
            b == (App { add_dialog_focus: (focus + 1) as usize, ..a })
        }
    } else if key == Key::Enter {
        let name = trim(fields[0]@);
        let value = trim(fields[1]@);
        if name.len() > 0 && value.len() > 0 {
            &&& b.config.tunnel == a.config.tunnel
            &&& b.config.servers@.len() == a.config.servers@.len() + 1
            &&& b.config.servers@.drop_last() == a.config.servers@
            &&& dialog_server_matches(b.config.servers@.last(), a.add_dialog_type, name, value)
            &&& shows(b, "Added server: "@ + name, now)
            &&& b == (App { config: b.config, message: b.message, message_time: b.message_time, show_add_dialog: false, ..a })
            &&& act is SaveConfigOrFail
        } else {
            b == (App { show_add_dialog: false, ..a }) && act is Nothing
        }
    } else if key is Char {
        let c = key->0;
        &&& act is Nothing
        &&& if focus < fields.len() {
            &&& b.add_dialog_fields@.len() == fields.len()
            &&& b.add_dialog_fields@[focus as int]@ == fields[focus as int]@.push(c)
            &&& forall|i: int| 0 <= i < fields.len() && i != focus ==> b.add_dialog_fields@[i] == fields[i]
            &&& b == (App { add_dialog_fields: b.add_dialog_fields, ..a })
        } else {
            b == a
        }
    } else if key == Key::Backspace {
        &&& act is Nothing
        &&& if focus < fields.len() {
            let f = fields[focus as int]@;
            &&& b.add_dialog_fields@.len() == fields.len()
            &&& b.add_dialog_fields@[focus as int]@ == (if f.len() > 0 { f.drop_last() } else { f })
            &&& forall|i: int| 0 <= i < fields.len() && i != focus ==> b.add_dialog_fields@[i] == fields[i]
            &&& b == (App { add_dialog_fields: b.add_dialog_fields, ..a })
        } else {
            b == a
        }
    } else {
        b == a && act is Nothing
    }
}

/// The state after any key press, and the work asked for.
pub open spec fn key_step(a: App, b: App, key: Key, now: u64, act: KeyAction) -> bool {
    if a.show_add_dialog {
        dialog_key_step(a, b, key, now, act)
    } else {
        main_key_step(a, b, key, now, act)
    }
}

fn is_char(key: &Key, c: char) -> (r: bool)
    ensures
        r == (*key == Key::Char(c)),
{
    match key {
        Key::Char(k) => *k == c,
        _ => false,
    }
}

impl App {
    /// Handles a key press outside the add dialog.
    fn handle_main_key(&mut self, key: Key, now: u64) -> (act: KeyAction)
        requires
            !old(self).show_add_dialog,
            old(self).selected_server < usize::MAX,
            old(self).selected_tool < usize::MAX,
        ensures
            main_key_step(*old(self), *final(self), key, now, act),
    {
        let servers_tab = match self.current_tab { Tab::Servers => true, _ => false };
        let tunnel_tab = match self.current_tab { Tab::Tunnel => true, _ => false };
        let audit_tab = match self.current_tab { Tab::AuditLog => true, _ => false };
        let in_tools_view = match self.current_tab { Tab::Tools => true, _ => false };
        let in_server_list = servers_tab;
        if is_char(&key, 'q') || is_char(&key, 'Q') {
            self.should_quit = true;
            return KeyAction::Nothing;
        }
        if let Key::Tab = key {
            self.next_tab();
            return KeyAction::Nothing;
        }
        if let Key::BackTab = key {
            self.prev_tab();
            return KeyAction::Nothing;
        }
        let up = match key { Key::Up => true, _ => false } || is_char(&key, 'k');
        if up {
            if in_tools_view {
                self.prev_tool();
            } else if servers_tab {
                self.prev_server();
            } else if audit_tab {
                self.audit_scroll = self.audit_scroll.saturating_add(1);
            }
            return KeyAction::Nothing;
        }
        let down = match key { Key::Down => true, _ => false } || is_char(&key, 'j');
        if down {
            if in_tools_view {
                self.next_tool();
            } else if servers_tab {
                self.next_server();
            } else if audit_tab {
                self.audit_scroll = self.audit_scroll.saturating_sub(1);
            }
            return KeyAction::Nothing;
        }
        let enter = match key { Key::Enter => true, _ => false };
        if enter && in_server_list {
            self.enter_tools_view();
            return KeyAction::Nothing;
        }
        if is_char(&key, 'a') && in_server_list {
            let mut fields: Vec<String> = Vec::new();
            fields.push(String::new());
            fields.push(String::new());
            self.show_add_dialog = true;
            self.add_dialog_type = AddDialogType::Http;
            self.add_dialog_fields = fields;
            self.add_dialog_focus = 0;
            return KeyAction::Nothing;
        }
        if is_char(&key, 'd') && in_server_list {
            let removed = self.remove_selected_server();
            self.set_message(owned("Server removed"), now);
            return if removed { KeyAction::SaveConfig } else { KeyAction::Nothing };
        }
        if is_char(&key, 'o') && in_server_list {
            if self.selected_server < self.config.servers.len() {
                let i = self.selected_server;
                match &self.config.servers[i].ty {
                    UpstreamType::Http { url } => {
                        let name = self.config.servers[i].name.clone();
                        let url = url.clone();
                        return KeyAction::OAuthLogin { index: i, name, url };
                    },
                    UpstreamType::Stdio { .. } => {
                        self.set_message(owned("OAuth only supported for HTTP servers"), now);
                        return KeyAction::Nothing;
                    },
                }
            }
            return KeyAction::Nothing;
        }
        if is_char(&key, 'O') && in_server_list {
            if self.selected_server < self.config.servers.len() {
                let name = self.config.servers[self.selected_server].name.clone();
                let msg = join3("OAuth token cleared for '", name.as_str(), "'");
                self.set_message(msg, now);
                return KeyAction::ClearToken { name };
            }
            return KeyAction::Nothing;
        }
        if is_char(&key, ' ') && in_tools_view {
            let changed = self.toggle_selected_tool();
            return if changed { KeyAction::SaveConfig } else { KeyAction::Nothing };
        }
        let esc = match key { Key::Esc => true, _ => false };
        if esc && in_tools_view {
            self.current_tab = Tab::Servers;
            return KeyAction::Nothing;
        }
        if is_char(&key, 'f') && in_tools_view {
            self.tools_folded = !self.tools_folded;
            return KeyAction::Nothing;
        }
        if is_char(&key, 's') {
            self.set_message(owned("Serve: not yet implemented in TUI"), now);
            return KeyAction::Nothing;
        }
        if is_char(&key, 't') && tunnel_tab {
            if self.quick_tunnel_running {
                return KeyAction::StopQuickTunnel;
            }
            return KeyAction::StartQuickTunnel { local_url: owned(LOCAL_SERVER_URL) };
        }
        if is_char(&key, 'r') && tunnel_tab {
            self.set_message(owned("Named tunnel: use CLI 'mcp-tunnel tunnel run <name>'"), now);
            return KeyAction::Nothing;
        }
        if is_char(&key, 'c') && audit_tab {
            self.audit_logs = Vec::new();
            self.audit_scroll = 0;
            return KeyAction::Nothing;
        }
        KeyAction::Nothing
    }
}

impl App {
    /// Handles a key press in the add dialog.
    fn handle_add_dialog_key(&mut self, key: Key, now: u64) -> (act: KeyAction)
        requires
            old(self).add_dialog_fields@.len() >= 2,
            old(self).add_dialog_focus < usize::MAX,
        ensures
            dialog_key_step(*old(self), *final(self), key, now, act),
    {
        let n = self.add_dialog_fields.len();
        let focus = self.add_dialog_focus;
        match key {
            Key::Esc => {
                self.show_add_dialog = false;
                KeyAction::Nothing
            },
            Key::Tab => {
                if focus == n - 1 {
                    self.add_dialog_type = match self.add_dialog_type {
                        AddDialogType::Http => AddDialogType::Stdio,
                        AddDialogType::Stdio => AddDialogType::Http,
                    };
                    self.add_dialog_focus = 0;
                } else {
                    self.add_dialog_focus = focus + 1;
                }
                KeyAction::Nothing
            },
            Key::Enter => {
                let name = trimmed(self.add_dialog_fields[0].as_str());
                let value = trimmed(self.add_dialog_fields[1].as_str());
                if name.unicode_len() > 0 && value.unicode_len() > 0 {
                    let msg = join2("Added server: ", name.as_str());
                    match self.add_dialog_type {
                        AddDialogType::Http => {
                            self.config.add_http_server(name, value);
                        },
                        AddDialogType::Stdio => {
                            let mut parts = split_words(value.as_str());
                            proof {
                                crate::text::lemma_trimmed_not_blank(old(self).add_dialog_fields@[1]@);
                                lemma_words_nonempty(value@);
                            }
                            let command = parts.remove(0);
                            proof {
                                assert forall|i: int| 0 <= i < parts@.len() implies #[trigger] parts@[i]@ == words(value@)[i + 1] by {
                                }
                            }
                            self.config.add_stdio_server(name, command, parts);
                        },
                    }
                    self.set_message(msg, now);
                    self.show_add_dialog = false;
                    KeyAction::SaveConfigOrFail
                } else {
                    self.show_add_dialog = false;
                    KeyAction::Nothing
                }
            },
            Key::Char(c) => {
                if focus < n {
                    let mut field = self.add_dialog_fields[focus].clone();
                    push_char(&mut field, c);
                    self.add_dialog_fields.set(focus, field);
                }
                KeyAction::Nothing
            },
            Key::Backspace => {
                if focus < n {
                    let cs = chars_of(self.add_dialog_fields[focus].as_str());
                    let len = cs.len();
                    if len > 0 {
                        let field = string_of_range(&cs, 0, len - 1);
                        self.add_dialog_fields.set(focus, field);
                        assert(self.add_dialog_fields@[focus as int]@ =~= old(self).add_dialog_fields@[focus as int]@.drop_last());
                    }
                }
                KeyAction::Nothing
            },
            _ => KeyAction::Nothing,
        }
    }

    /// Handles a key press at time `now`: updates the state and returns the
    /// outside work to perform.
    pub fn handle_key(&mut self, key: Key, now: u64) -> (act: KeyAction)
        requires
            old(self).show_add_dialog ==> old(self).add_dialog_fields@.len() >= 2,
            old(self).show_add_dialog ==> old(self).add_dialog_focus < usize::MAX,
            old(self).selected_server < usize::MAX,
            old(self).selected_tool < usize::MAX,
        ensures
            key_step(*old(self), *final(self), key, now, act),
    {
        if self.show_add_dialog {
            self.handle_add_dialog_key(key, now)
        } else {
            self.handle_main_key(key, now)
        }
    }
}

/// Text that is not all whitespace has at least one word.
pub proof fn lemma_words_nonempty(s: Seq<char>)
    requires
        !crate::text::all_whitespace(s),
    ensures
        words(s).len() > 0,
    decreases s.len(),
{
    if s.len() > 0 {
        if crate::text::unicode_whitespace(s[0]) {
            assert(!crate::text::all_whitespace(s.drop_first())) by {
                let k = choose|k: int| 0 <= k < s.len() && !crate::text::unicode_whitespace(s[k]);
                assert(s.drop_first()[k - 1] == s[k]);
            }
            lemma_words_nonempty(s.drop_first());
        }
    }
}

/// The message after tools were discovered on a server.
pub open spec fn discovered_message(name: Seq<char>, count: nat) -> Seq<char> {
    "OAuth ok for '"@ + name + "'. "@ + crate::text::decimal(count) + " tools discovered. Press Enter to view."@
}

/// A discovered tool as cached: enabled, with an empty description when
/// the upstream gives none.
pub fn discovered_tool(name: String, description: Option<String>) -> (r: ToolInfo)
    ensures
        r.name == name,
        r.description@ == (match description { Some(d) => d@, None => Seq::<char>::empty() }),
        r.enabled,
{
    let description = match description {
        Some(d) => d,
        None => String::new(),
    };
    ToolInfo { name, description, enabled: true }
}

impl App {
    /// Records the tools discovered on `server_name` after an OAuth login:
    /// replaces that server's first cache entry, or adds one, and reports
    /// the count. The config is then saved (a failure is not reported).
    pub fn oauth_tools_discovered(&mut self, server_name: String, tools: Vec<ToolInfo>, now: u64) -> (act: KeyAction)
        ensures
            act is SaveConfig,
            shows(*final(self), discovered_message(server_name@, tools@.len()), now),
            match crate::app::cache_index(old(self).tool_cache@, server_name@) {
                Some(c) => {
                    &&& final(self).tool_cache@.len() == old(self).tool_cache@.len()
                    &&& final(self).tool_cache@[c].server == old(self).tool_cache@[c].server
                    &&& final(self).tool_cache@[c].tools == tools
                    &&& forall|j: int| 0 <= j < old(self).tool_cache@.len() && j != c ==>
                            final(self).tool_cache@[j] == old(self).tool_cache@[j]
                },
                None => {
                    &&& final(self).tool_cache@.drop_last() == old(self).tool_cache@
                    &&& final(self).tool_cache@.last().server == server_name
                    &&& final(self).tool_cache@.last().tools == tools
                },
            },
            *final(self) == (App { tool_cache: final(self).tool_cache, message: final(self).message, message_time: final(self).message_time, ..*old(self) }),
    {
        let count = crate::text::decimal_text(tools.len() as u64);
        let msg = join3("OAuth ok for '", server_name.as_str(), "'. ");
        let msg = join3(msg.as_str(), count.as_str(), " tools discovered. Press Enter to view.");
        match crate::app::find_cache(&self.tool_cache, &server_name) {
            Some(c) => {
                proof {
                    crate::app::lemma_cache_index_bound(old(self).tool_cache@, server_name@);
                }
                let mut cache: Vec<ToolCache> = Vec::new();
                std::mem::swap(&mut cache, &mut self.tool_cache);
                let mut entry = cache.remove(c);
                entry.tools = tools;
                cache.insert(c, entry);
                self.tool_cache = cache;
            },
            None => {
                self.tool_cache.push(ToolCache { server: server_name, tools });
                assert(self.tool_cache@.drop_last() =~= old(self).tool_cache@);
            },
        }
        self.set_message(msg, now);
        KeyAction::SaveConfig
    }

    /// Reports that the OAuth login succeeded but tool discovery failed.
    pub fn oauth_discovery_failed(&mut self, server_name: &str, error: &str, now: u64)
        ensures
            only_message(*old(self), *final(self),
                "OAuth ok for '"@ + server_name@ + "', but tool discovery failed: "@ + error@, now),
    {
        let msg = join3("OAuth ok for '", server_name, "', but tool discovery failed: ");
        self.set_message(join2(msg.as_str(), error), now);
    }

    /// Reports that the OAuth login failed.
    pub fn oauth_login_failed(&mut self, error: &str, now: u64)
        ensures
            only_message(*old(self), *final(self), "OAuth login failed: "@ + error@, now),
    {
        self.set_message(join2("OAuth login failed: ", error), now);
    }

    /// Records that the quick tunnel started at public `url`.
    pub fn quick_tunnel_started(&mut self, url: String, now: u64)
        ensures
            final(self).tunnel_url == Some(url),
            final(self).quick_tunnel_running,
            shows(*final(self), "QuickTunnel started: "@ + url@, now),
            *final(self) == (App { tunnel_url: final(self).tunnel_url, quick_tunnel_running: true, message: final(self).message, message_time: final(self).message_time, ..*old(self) }),
    {
        let msg = join2("QuickTunnel started: ", url.as_str());
        self.tunnel_url = Some(url);
        self.quick_tunnel_running = true;
        self.set_message(msg, now);
    }

    /// Reports that the quick tunnel could not be started.
    pub fn quick_tunnel_start_failed(&mut self, error: &str, now: u64)
        ensures
            only_message(*old(self), *final(self), "Failed to start QuickTunnel: "@ + error@, now),
    {
        self.set_message(join2("Failed to start QuickTunnel: ", error), now);
    }

    /// Records that the quick tunnel stopped.
    pub fn quick_tunnel_stopped(&mut self, now: u64)
        ensures
            final(self).tunnel_url is None,
            !final(self).quick_tunnel_running,
            shows(*final(self), "QuickTunnel stopped."@, now),
            *final(self) == (App { tunnel_url: None, quick_tunnel_running: false, message: final(self).message, message_time: final(self).message_time, ..*old(self) }),
    {
        self.quick_tunnel_running = false;
        self.tunnel_url = None;
        self.set_message(owned("QuickTunnel stopped."), now);
    }

    /// Reports that the quick tunnel could not be stopped.
    pub fn quick_tunnel_stop_failed(&mut self, error: &str, now: u64)
        ensures
            only_message(*old(self), *final(self), "Failed to stop QuickTunnel: "@ + error@, now),
    {
        self.set_message(join2("Failed to stop QuickTunnel: ", error), now);
    }
}

} // verus!
