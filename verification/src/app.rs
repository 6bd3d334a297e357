//! The terminal UI's state and its state transitions.

use vstd::prelude::*;
use crate::config::{Config, ServerConfig, ToolCache, ToolInfo, toggled};
use crate::server::audit::AuditLog;
use crate::text::owned;
use crate::constants::TUI_MESSAGE_DURATION_SECS;

verus! {

/// The tabs of the UI.
pub enum Tab {
    Servers,
    Tools,
    Tunnel,
    AuditLog,
}

/// The kind of server the add dialog creates.
pub enum AddDialogType {
    Http,
    Stdio,
}

/// The UI's state. Times are milliseconds on a monotonic clock that the
/// caller keeps.
pub struct App {
    pub config: Config,
    pub current_tab: Tab,
    pub should_quit: bool,
    /// The row highlighted in the server list, if any.
    pub server_list_selected: Option<usize>,
    pub selected_server: usize,
    /// The row highlighted in the tool list, if any.
    pub tool_list_selected: Option<usize>,
    pub selected_tool: usize,
    /// The server whose tools are shown.
    pub tools_for_server: Option<String>,
    /// Brief (folded) rather than full tool view.
    pub tools_folded: bool,
    pub audit_logs: Vec<AuditLog>,
    pub audit_scroll: usize,
    pub tunnel_url: Option<String>,
    pub quick_tunnel_running: bool,
    pub serve_running: bool,
    /// Tools discovered per server (in memory only).
    pub tool_cache: Vec<ToolCache>,
    /// The transient notification, and when it was set.
    pub message: Option<String>,
    pub message_time: Option<u64>,
    pub show_add_dialog: bool,
    pub add_dialog_type: AddDialogType,
    pub add_dialog_fields: Vec<String>,
    pub add_dialog_focus: usize,
    pub is_edit_mode: bool,
}

/// The index after `i` in a cyclic list of `n` entries.
pub open spec fn next_index(i: int, n: int) -> int {
    (i + 1) % n
}

/// The index before `i` in a cyclic list of `n` entries.
pub open spec fn prev_index(i: int, n: int) -> int {
    if i == 0 { n - 1 } else { i - 1 }
}

/// The tab after `t`.
pub open spec fn tab_after(t: Tab) -> Tab {
    match t {
        Tab::Servers => Tab::Tools,
        Tab::Tools => Tab::Tunnel,
        Tab::Tunnel => Tab::AuditLog,
        Tab::AuditLog => Tab::Servers,
    }
}

/// The tab before `t`.
pub open spec fn tab_before(t: Tab) -> Tab {
    match t {
        Tab::Servers => Tab::AuditLog,
        Tab::Tools => Tab::Servers,
        Tab::Tunnel => Tab::Tools,
        Tab::AuditLog => Tab::Tunnel,
    }
}

/// The first index of the cache whose server is `name`.
pub open spec fn cache_index(cache: Seq<ToolCache>, name: Seq<char>) -> Option<int>
    decreases cache.len(),
{
    if cache.len() == 0 {
        None
    } else if cache[0].server@ == name {
        Some(0)
    } else {
        match cache_index(cache.drop_first(), name) {
            Some(i) => Some(i + 1),
            None => None,
        }
    }
}

/// The first index of the servers whose name is `name`.
pub open spec fn server_index(servers: Seq<ServerConfig>, name: Seq<char>) -> Option<int>
    decreases servers.len(),
{
    if servers.len() == 0 {
        None
    } else if servers[0].name@ == name {
        Some(0)
    } else {
        match server_index(servers.drop_first(), name) {
            Some(i) => Some(i + 1),
            None => None,
        }
    }
}

/// How many tools are cached for the server whose tools are shown.
pub open spec fn shown_tools_count(cache: Seq<ToolCache>, shown: Option<String>) -> nat {
    match shown {
        Some(name) => match cache_index(cache, name@) {
            Some(i) => cache[i].tools@.len(),
            None => 0,
        },
        None => 0,
    }
}

/// Whether a message set at `set_at` has expired at `now`: more than the
/// display duration, counted in whole seconds, has passed.
pub open spec fn message_expired(set_at: u64, now: u64) -> bool {
    let elapsed = if now >= set_at { now - set_at } else { 0 };
    elapsed / 1000 > TUI_MESSAGE_DURATION_SECS
}

pub proof fn lemma_cache_index_bound(cache: Seq<ToolCache>, name: Seq<char>)
    ensures
        cache_index(cache, name) matches Some(i) ==> 0 <= i < cache.len() && cache[i].server@ == name,
        cache_index(cache, name) matches Some(i) ==> forall|j: int| 0 <= j < i ==> cache[j].server@ != name,
        cache_index(cache, name) is None ==> forall|j: int| 0 <= j < cache.len() ==> cache[j].server@ != name,
    decreases cache.len(),
{
    if cache.len() > 0 {
        lemma_cache_index_bound(cache.drop_first(), name);
        assert forall|j: int| 1 <= j < cache.len() implies cache[j] == cache.drop_first()[j - 1] by {}
    }
}

pub proof fn lemma_server_index_bound(servers: Seq<ServerConfig>, name: Seq<char>)
    ensures
        server_index(servers, name) matches Some(i) ==> 0 <= i < servers.len() && servers[i].name@ == name,
        server_index(servers, name) matches Some(i) ==> forall|j: int| 0 <= j < i ==> servers[j].name@ != name,
        server_index(servers, name) is None ==> forall|j: int| 0 <= j < servers.len() ==> servers[j].name@ != name,
    decreases servers.len(),
{
    if servers.len() > 0 {
        lemma_server_index_bound(servers.drop_first(), name);
        assert forall|j: int| 1 <= j < servers.len() implies servers[j] == servers.drop_first()[j - 1] by {}
    }
}

proof fn lemma_cache_index_is(cache: Seq<ToolCache>, name: Seq<char>, i: int)
    requires
        0 <= i < cache.len(),
        cache[i].server@ == name,
        forall|j: int| 0 <= j < i ==> cache[j].server@ != name,
    ensures
        cache_index(cache, name) == Some(i),
    decreases i,
{
    if i > 0 {
        lemma_cache_index_is(cache.drop_first(), name, i - 1);
    }
}

proof fn lemma_cache_index_none(cache: Seq<ToolCache>, name: Seq<char>)
    requires
        forall|j: int| 0 <= j < cache.len() ==> cache[j].server@ != name,
    ensures
        cache_index(cache, name) is None,
    decreases cache.len(),
{
    if cache.len() > 0 {
        lemma_cache_index_none(cache.drop_first(), name);
    }
}

proof fn lemma_server_index_is(servers: Seq<ServerConfig>, name: Seq<char>, i: int)
    requires
        0 <= i < servers.len(),
        servers[i].name@ == name,
        forall|j: int| 0 <= j < i ==> servers[j].name@ != name,
    ensures
        server_index(servers, name) == Some(i),
    decreases i,
{
    if i > 0 {
        lemma_server_index_is(servers.drop_first(), name, i - 1);
    }
}

proof fn lemma_server_index_none(servers: Seq<ServerConfig>, name: Seq<char>)
    requires
        forall|j: int| 0 <= j < servers.len() ==> servers[j].name@ != name,
    ensures
        server_index(servers, name) is None,
    decreases servers.len(),
{
    if servers.len() > 0 {
        lemma_server_index_none(servers.drop_first(), name);
    }
}

/// The first index of the cache whose server is `name`.
pub fn find_cache(cache: &Vec<ToolCache>, name: &String) -> (r: Option<usize>)
    ensures
        match (r, cache_index(cache@, name@)) {
            (Some(i), Some(j)) => i == j,
            (None, None) => true,
            _ => false,
        },
{
    let n = cache.len();
    let mut i: usize = 0;
    while i < n
        invariant
            n == cache@.len(),
            i <= n,
            forall|j: int| 0 <= j < i ==> cache@[j].server@ != name@,
        decreases n - i,
    {
        if cache[i].server == *name {
            proof {
                lemma_cache_index_is(cache@, name@, i as int);
            }
            return Some(i);
        }
        i = i + 1;
    }
    proof {
        lemma_cache_index_none(cache@, name@);
    }
    None
}

/// The first index of the servers whose name is `name`.
pub fn find_server(servers: &Vec<ServerConfig>, name: &String) -> (r: Option<usize>)
    ensures
        match (r, server_index(servers@, name@)) {
            (Some(i), Some(j)) => i == j,
            (None, None) => true,
            _ => false,
        },
{
    let n = servers.len();
    let mut i: usize = 0;
    while i < n
        invariant
            n == servers@.len(),
            i <= n,
            forall|j: int| 0 <= j < i ==> servers@[j].name@ != name@,
        decreases n - i,
    {
        if servers[i].name == *name {
            proof {
                lemma_server_index_is(servers@, name@, i as int);
            }
            return Some(i);
        }
        i = i + 1;
    }
    proof {
        lemma_server_index_none(servers@, name@);
    }
    None
}

impl App {
    /// The server (by index) and the tool (by name) that toggling acts on:
    /// the shown server's first configuration and the selected tool of its
    /// first cache entry.
    pub open spec fn toggle_target(&self) -> Option<(int, Seq<char>)> {
        match self.tools_for_server {
            Some(name) => match (server_index(self.config.servers@, name@), cache_index(self.tool_cache@, name@)) {
                (Some(s), Some(c)) => if self.selected_tool < self.tool_cache@[c].tools@.len() {
                    Some((s, self.tool_cache@[c].tools@[self.selected_tool as int].name@))
                } else {
                    None
                },
                _ => None,
            },
            None => None,
        }
    }

    /// Moving the server selection down, wrapping to the top.
    pub open spec fn next_server_step(a: App, b: App) -> bool {
        let n = a.config.servers@.len();
        if n == 0 {
            b == a
        } else {
            &&& b.selected_server == next_index(a.selected_server as int, n as int)
            &&& b == App { selected_server: b.selected_server, server_list_selected: Some(b.selected_server), ..a }
        }
    }

    /// Moving the server selection up, wrapping to the bottom.
    pub open spec fn prev_server_step(a: App, b: App) -> bool {
        let n = a.config.servers@.len();
        if n == 0 {
            b == a
        } else {
            &&& b.selected_server == prev_index(a.selected_server as int, n as int)
            &&& b == App { selected_server: b.selected_server, server_list_selected: Some(b.selected_server), ..a }
        }
    }

    /// Moving the tool selection down, wrapping to the top.
    pub open spec fn next_tool_step(a: App, b: App) -> bool {
        let n = shown_tools_count(a.tool_cache@, a.tools_for_server);
        if n == 0 {
            b == a
        } else {
            &&& b.selected_tool == next_index(a.selected_tool as int, n as int)
            &&& b == App { selected_tool: b.selected_tool, tool_list_selected: Some(b.selected_tool), ..a }
        }
    }

    /// Moving the tool selection up, wrapping to the bottom.
    pub open spec fn prev_tool_step(a: App, b: App) -> bool {
        let n = shown_tools_count(a.tool_cache@, a.tools_for_server);
        if n == 0 {
            b == a
        } else {
            &&& b.selected_tool == prev_index(a.selected_tool as int, n as int)
            &&& b == App { selected_tool: b.selected_tool, tool_list_selected: Some(b.selected_tool), ..a }
        }
    }

    /// Showing the message `msg` stamped `now`; nothing else changes.
    pub open spec fn message_step(a: App, b: App, msg: Seq<char>, now: u64) -> bool {
        &&& b.message matches Some(m) && m@ == msg
        &&& b == App { message: b.message, message_time: Some(now), ..a }
    }

    /// Clearing the message when it has expired at `now`.
    pub open spec fn clear_message_step(a: App, b: App, now: u64) -> bool {
        if a.message_time matches Some(t) && message_expired(t, now) {
            b == App { message: None, message_time: None, ..a }
        } else {
            b == a
        }
    }

    /// Removing the selected server (when the selection is in range) and
    /// bringing the selection back in range.
    pub open spec fn remove_step(a: App, b: App) -> bool {
        if a.selected_server < a.config.servers@.len() {
            let n = b.config.servers@.len();
            &&& b.config.servers@ == a.config.servers@.remove(a.selected_server as int)
            &&& b.config.tunnel == a.config.tunnel
            &&& n == 0 ==> b.selected_server == 0 && b.server_list_selected is None
            &&& n > 0 && a.selected_server >= n ==> b.selected_server == n - 1
                && b.server_list_selected == Some(b.selected_server)
            &&& n > 0 && a.selected_server < n ==> b.selected_server == a.selected_server
                && b.server_list_selected == a.server_list_selected
            &&& b == App { config: b.config, selected_server: b.selected_server, server_list_selected: b.server_list_selected, ..a }
        } else {
            b == a
        }
    }

    /// Flipping whether the selected tool of the shown server is disabled.
    pub open spec fn toggle_step(a: App, b: App) -> bool {
        match a.toggle_target() {
            Some((s, tool)) => {
                &&& b.config.servers@.len() == a.config.servers@.len()
                &&& forall|j: int| 0 <= j < a.config.servers@.len() && j != s ==>
                        b.config.servers@[j] == a.config.servers@[j]
                &&& b.config.servers@[s].name == a.config.servers@[s].name
                &&& b.config.servers@[s].ty == a.config.servers@[s].ty
                &&& b.config.servers@[s].enabled_tools == a.config.servers@[s].enabled_tools
                &&& b.config.servers@[s].disabled_set() == toggled(a.config.servers@[s].disabled_set(), tool)
                &&& b.config.tunnel == a.config.tunnel
                &&& b == App { config: b.config, ..a }
            },
            None => b == a,
        }
    }

    /// Opening the tool list of the selected server.
    pub open spec fn enter_tools_step(a: App, b: App) -> bool {
        if a.selected_server < a.config.servers@.len() {
            &&& b.tools_for_server matches Some(n) && n@ == a.config.servers@[a.selected_server as int].name@
            &&& b == App {
                tools_for_server: b.tools_for_server,
                current_tab: Tab::Tools,
                selected_tool: 0,
                tool_list_selected: Some(0),
                ..a
            }
        } else {
            b == a
        }
    }

    /// A fresh UI state for `config`: on the Servers tab, with the first
    /// server highlighted when there is one.
    pub fn new(config: Config) -> (r: App)
        ensures
            r.config == config,
            r.current_tab is Servers,
            !r.should_quit,
            r.selected_server == 0,
            r.server_list_selected == (if config.servers@.len() > 0 { Some(0usize) } else { None }),
            r.tool_list_selected is None,
            r.selected_tool == 0,
            r.tools_for_server is None,
            !r.tools_folded,
            r.audit_logs@.len() == 0,
            r.audit_scroll == 0,
            r.tunnel_url is None,
            !r.quick_tunnel_running,
            !r.serve_running,
            r.tool_cache@.len() == 0,
            r.message is None,
            r.message_time is None,
            !r.show_add_dialog,
            r.add_dialog_type is Http,
            r.add_dialog_fields@.len() == 2,
            r.add_dialog_fields@[0]@.len() == 0,
            r.add_dialog_fields@[1]@.len() == 0,
            r.add_dialog_focus == 0,
            !r.is_edit_mode,
    {
        let has_servers = config.servers.len() > 0;
        let mut fields: Vec<String> = Vec::new();
        fields.push(String::new());
        fields.push(String::new());
        App {
            config,
            current_tab: Tab::Servers,
            should_quit: false,
            server_list_selected: if has_servers { Some(0) } else { None },
            selected_server: 0,
            tool_list_selected: None,
            selected_tool: 0,
            tools_for_server: None,
            tools_folded: false,
            audit_logs: Vec::new(),
            audit_scroll: 0,
            tunnel_url: None,
            quick_tunnel_running: false,
            serve_running: false,
            tool_cache: Vec::new(),
            message: None,
            message_time: None,
            show_add_dialog: false,
            add_dialog_type: AddDialogType::Http,
            add_dialog_fields: fields,
            add_dialog_focus: 0,
            is_edit_mode: false,
        }
    }

    /// Moves the server selection down, wrapping to the top.
    pub fn next_server(&mut self)
        requires
            old(self).selected_server < usize::MAX,
        ensures
            App::next_server_step(*old(self), *final(self)),
    {
        let n = self.config.servers.len();
        if n == 0 {
            return;
        }
        self.selected_server = (self.selected_server + 1) % n;
        self.server_list_selected = Some(self.selected_server);
    }

    /// Moves the server selection up, wrapping to the bottom.
    pub fn prev_server(&mut self)
        ensures
            App::prev_server_step(*old(self), *final(self)),
    {
        let n = self.config.servers.len();
        if n == 0 {
            return;
        }
        if self.selected_server == 0 {
            self.selected_server = n - 1;
        } else {
            self.selected_server = self.selected_server - 1;
        }
        self.server_list_selected = Some(self.selected_server);
    }

    /// How many tools are cached for the server whose tools are shown.
    pub fn current_tools_count(&self) -> (r: usize)
        ensures
            r == shown_tools_count(self.tool_cache@, self.tools_for_server),
    {
        match &self.tools_for_server {
            Some(name) => match find_cache(&self.tool_cache, name) {
                Some(i) => {
                    proof {
                        lemma_cache_index_bound(self.tool_cache@, name@);
                    }
                    self.tool_cache[i].tools.len()
                },
                None => 0,
            },
            None => 0,
        }
    }

    /// Moves the tool selection down, wrapping to the top.
    pub fn next_tool(&mut self)
        requires
            old(self).selected_tool < usize::MAX,
        ensures
            App::next_tool_step(*old(self), *final(self)),
    {
        let n = self.current_tools_count();
        if n == 0 {
            return;
        }
        self.selected_tool = (self.selected_tool + 1) % n;
        self.tool_list_selected = Some(self.selected_tool);
    }

    /// Moves the tool selection up, wrapping to the bottom.
    pub fn prev_tool(&mut self)
        ensures
            App::prev_tool_step(*old(self), *final(self)),
    {
        let n = self.current_tools_count();
        if n == 0 {
            return;
        }
        if self.selected_tool == 0 {
            self.selected_tool = n - 1;
        } else {
            self.selected_tool = self.selected_tool - 1;
        }
        self.tool_list_selected = Some(self.selected_tool);
    }

    /// The selected server's configuration, if the selection is in range.
    pub fn selected_server_config(&self) -> (r: Option<&ServerConfig>)
        ensures
            self.selected_server < self.config.servers@.len() ==> r == Some(&self.config.servers@[self.selected_server as int]),
            self.selected_server >= self.config.servers@.len() ==> r is None,
    {
        if self.selected_server < self.config.servers.len() {
            Some(&self.config.servers[self.selected_server])
        } else {
            None
        }
    }

    /// Shows `msg`, stamped with the time `now`.
    pub fn set_message(&mut self, msg: String, now: u64)
        ensures
            App::message_step(*old(self), *final(self), msg@, now),
    {
        self.message = Some(msg);
        self.message_time = Some(now);
    }

    /// Clears the message once it has been shown longer than the display
    /// duration.
    pub fn clear_message_if_expired(&mut self, now: u64)
        ensures
            App::clear_message_step(*old(self), *final(self), now),
    {
        if let Some(t) = self.message_time {
            let elapsed = if now >= t { now - t } else { 0 };
            if elapsed / 1000 > TUI_MESSAGE_DURATION_SECS {
                self.message = None;
                self.message_time = None;
            }
        }
    }

    /// Switches to the next tab.
    pub fn next_tab(&mut self)
        ensures
            *final(self) == (App { current_tab: tab_after(old(self).current_tab), ..*old(self) }),
    {
        self.current_tab = match self.current_tab {
            Tab::Servers => Tab::Tools,
            Tab::Tools => Tab::Tunnel,
            Tab::Tunnel => Tab::AuditLog,
            Tab::AuditLog => Tab::Servers,
        };
    }

    /// Switches to the previous tab.
    pub fn prev_tab(&mut self)
        ensures
            *final(self) == (App { current_tab: tab_before(old(self).current_tab), ..*old(self) }),
    {
        self.current_tab = match self.current_tab {
            Tab::Servers => Tab::AuditLog,
            Tab::Tools => Tab::Servers,
            Tab::Tunnel => Tab::Tools,
            Tab::AuditLog => Tab::Tunnel,
        };
    }

    /// Removes the selected server, keeping the selection in range.
    /// Returns whether a server was removed (and the config must be saved).
    pub fn remove_selected_server(&mut self) -> (removed: bool)
        ensures
            removed == (old(self).selected_server < old(self).config.servers@.len()),
            App::remove_step(*old(self), *final(self)),
    {
        if self.selected_server < self.config.servers.len() {
            self.config.servers.remove(self.selected_server);
            let n = self.config.servers.len();
            if n == 0 {
                self.selected_server = 0;
                self.server_list_selected = None;
            } else if self.selected_server >= n {
                self.selected_server = n - 1;
                self.server_list_selected = Some(self.selected_server);
            }
            true
        } else {
            false
        }
    }

    /// Flips whether the selected tool of the shown server is disabled in
    /// that server's configuration. Returns whether something changed (and
    /// the config must be saved).
    pub fn toggle_selected_tool(&mut self) -> (changed: bool)
        ensures
            changed == (old(self).toggle_target() is Some),
            App::toggle_step(*old(self), *final(self)),
            forall|j: int| 0 <= j < old(self).config.servers@.len() && #[trigger] old(self).config.servers@[j].lists_unique()
                ==> final(self).config.servers@[j].lists_unique(),
    {
        let name = match &self.tools_for_server {
            Some(n) => n.clone(),
            None => return false,
        };
        let s = match find_server(&self.config.servers, &name) {
            Some(s) => s,
            None => return false,
        };
        let c = match find_cache(&self.tool_cache, &name) {
            Some(c) => c,
            None => return false,
        };
        proof {
            lemma_server_index_bound(self.config.servers@, name@);
            lemma_cache_index_bound(self.tool_cache@, name@);
        }
        if self.selected_tool >= self.tool_cache[c].tools.len() {
            return false;
        }
        let tool = self.tool_cache[c].tools[self.selected_tool].name.clone();
        let mut servers: Vec<ServerConfig> = Vec::new();
        std::mem::swap(&mut servers, &mut self.config.servers);
        let ghost before = servers@;
        let mut target = servers.remove(s);
        target.toggle_disabled_tool(tool.as_str());
        servers.insert(s, target);
        proof {
            assert forall|j: int| 0 <= j < before.len() && j != s implies servers@[j] == before[j] by {
                if j < s {
                } else {
                }
            }
        }
        self.config.servers = servers;
        true
    }

    /// Opens the Tools tab on the selected server's tools.
    pub fn enter_tools_view(&mut self)
        ensures
            App::enter_tools_step(*old(self), *final(self)),
    {
        if self.selected_server < self.config.servers.len() {
            let name = self.config.servers[self.selected_server].name.clone();
            self.tools_for_server = Some(name);
            self.current_tab = Tab::Tools;
            self.selected_tool = 0;
            self.tool_list_selected = Some(0);
        }
    }
}

/// Tab cycling: the four tabs come in the order Servers, Tools, Tunnel,
/// Audit Log; four steps forward come back to the start, fewer do not, and
/// a step back undoes a step forward (and the other way round).
pub proof fn lemma_tab_cycle(t: Tab)
    ensures
        tab_after(Tab::Servers) == Tab::Tools,
        tab_after(Tab::Tools) == Tab::Tunnel,
        tab_after(Tab::Tunnel) == Tab::AuditLog,
        tab_after(Tab::AuditLog) == Tab::Servers,
        tab_after(tab_after(tab_after(tab_after(t)))) == t,
        tab_after(t) != t,
        tab_after(tab_after(t)) != t,
        tab_after(tab_after(tab_after(t))) != t,
        tab_before(tab_after(t)) == t,
        tab_after(tab_before(t)) == t,
{
}

/// Selection cycling: within a list of `n` entries, stepping forward then
/// back (or back then forward) returns to the same entry, and both steps
/// stay in range.
pub proof fn lemma_index_cycle(i: int, n: int)
    requires
        0 <= i < n,
    ensures
        0 <= next_index(i, n) < n,
        0 <= prev_index(i, n) < n,
        prev_index(next_index(i, n), n) == i,
        next_index(prev_index(i, n), n) == i,
{
    vstd::arithmetic::div_mod::lemma_small_mod(i as nat, n as nat);
    if i + 1 < n {
        vstd::arithmetic::div_mod::lemma_small_mod((i + 1) as nat, n as nat);
    } else {
        vstd::arithmetic::div_mod::lemma_mod_self_0(n);
    }
    if i == 0 {
        vstd::arithmetic::div_mod::lemma_mod_self_0(n);
    } else {
        vstd::arithmetic::div_mod::lemma_small_mod((i - 1) as nat, n as nat);
    }
}

/// A message is kept while the display duration has not passed, and
/// cleared once more than that many whole seconds have passed.
pub proof fn lemma_message_lifetime(set_at: u64, now: u64)
    ensures
        now <= set_at + 3999 ==> !message_expired(set_at, now),
        now >= set_at + 4000 ==> message_expired(set_at, now),
{
}

/// Moving the server selection down then up (or up then down) returns
/// to the same server, when the selection was in range.
pub proof fn lemma_server_selection_round_trip(a: App, b: App, c: App)
    requires
        a.selected_server < a.config.servers@.len(),
    ensures
        App::next_server_step(a, b) && App::prev_server_step(b, c) ==> c.selected_server == a.selected_server,
        App::prev_server_step(a, b) && App::next_server_step(b, c) ==> c.selected_server == a.selected_server,
        App::next_server_step(a, b) ==> b.selected_server < b.config.servers@.len(),
        App::prev_server_step(a, b) ==> b.selected_server < b.config.servers@.len(),
{
    lemma_index_cycle(a.selected_server as int, a.config.servers@.len() as int);
}

/// Toggling the same tool twice from the tool list restores the disabled
/// tools of the shown server.
pub proof fn lemma_toggle_tool_twice(a: App, b: App, c: App)
    requires
        App::toggle_step(a, b),
        App::toggle_step(b, c),
    ensures
        c.config.servers@.len() == a.config.servers@.len(),
        forall|j: int| 0 <= j < a.config.servers@.len() ==>
            #[trigger] c.config.servers@[j].disabled_set() == a.config.servers@[j].disabled_set(),
{
    if a.toggle_target() is Some {
        let (s, tool) = a.toggle_target().unwrap();
        let name = a.tools_for_server.unwrap()@;
        lemma_server_index_bound(a.config.servers@, name);
        assert forall|j: int| 0 <= j < a.config.servers@.len() implies b.config.servers@[j].name == a.config.servers@[j].name by {}
        lemma_server_index_same_names(a.config.servers@, b.config.servers@, name);
        assert(b.toggle_target() == Some((s, tool)));
        crate::config::lemma_toggle_twice(a.config.servers@[s].disabled_set(), tool);
    }
}

/// Lists with the same names in the same places find a name at the same
/// place.
pub proof fn lemma_server_index_same_names(x: Seq<ServerConfig>, y: Seq<ServerConfig>, name: Seq<char>)
    requires
        x.len() == y.len(),
        forall|j: int| 0 <= j < x.len() ==> y[j].name == x[j].name,
    ensures
        server_index(y, name) == server_index(x, name),
    decreases x.len(),
{
    if x.len() > 0 {
        lemma_server_index_same_names(x.drop_first(), y.drop_first(), name);
        assert(y[0].name == x[0].name);
    }
}

/// Deleting from the server list removes the selected server: the list
/// loses exactly the entry at the selected position, the entries before
/// it keep their places and those after it move up by one.
pub proof fn lemma_remove_takes_selected(a: App, b: App)
    requires
        App::remove_step(a, b),
        a.selected_server < a.config.servers@.len(),
    ensures
        b.config.servers@.len() + 1 == a.config.servers@.len(),
        forall|j: int| 0 <= j < a.selected_server ==> #[trigger] b.config.servers@[j] == a.config.servers@[j],
        forall|j: int| a.selected_server <= j < b.config.servers@.len() ==>
            #[trigger] b.config.servers@[j] == a.config.servers@[j + 1],
{
}

/// Opening the tools view shows the tools of the selected server (not of
/// any other), from the first tool, on the Tools tab.
pub proof fn lemma_enter_tools_shows_selected(a: App, b: App)
    requires
        App::enter_tools_step(a, b),
        a.selected_server < a.config.servers@.len(),
    ensures
        b.tools_for_server matches Some(n) && n@ == a.config.servers@[a.selected_server as int].name@,
        b.current_tab is Tools,
        b.selected_tool == 0,
        b.config == a.config,
        b.selected_server == a.selected_server,
{
}

} // verus!
