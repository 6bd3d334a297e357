//! Configuration: upstream servers, their tool filters, and tunnel settings.

use vstd::prelude::*;
use crate::error::AppError;
use crate::text::{chars_of, find_text, join2, join3, owned, text_eq, trimmed, is_blank, trim, contains_text};
use crate::mcp::tool_filter::{delimiter, delimiter_chars, has_delimiter};
use crate::url_parts::{parse_url, url_parse, parse_view, ParsedUrl};
use crate::constants::DEFAULT_BIND_ADDR;

verus! {

/// How an upstream MCP service is reached.
pub enum UpstreamType {
    /// A remote service over Streamable HTTP.
    Http { url: String },
    /// A local process spoken to over stdin/stdout.
    Stdio { command: String, args: Vec<String> },
}

/// One upstream server and its tool filter.
pub struct ServerConfig {
    pub name: String,
    pub ty: UpstreamType,
    /// If non-empty, only these tools are allowed.
    pub enabled_tools: Vec<String>,
    /// Explicitly disabled tools; these take precedence.
    pub disabled_tools: Vec<String>,
}

/// Whether a tunnel is started.
pub enum TunnelMode {
    Disabled,
    Quick,
}

/// Tunnel settings.
pub struct TunnelConfig {
    pub mode: TunnelMode,
    pub bind_addr: String,
}

/// A tool as discovered on an upstream.
pub struct ToolInfo {
    pub name: String,
    pub description: String,
    pub enabled: bool,
}

/// The tools discovered on one upstream server.
pub struct ToolCache {
    pub server: String,
    pub tools: Vec<ToolInfo>,
}

/// The whole configuration file.
pub struct Config {
    pub servers: Vec<ServerConfig>,
    pub tunnel: TunnelConfig,
}

/// The texts held by a list of strings.
pub open spec fn texts(v: Seq<String>) -> Seq<Seq<char>> {
    v.map_values(|s: String| s@)
}

/// The set of texts held by a list of strings.
pub open spec fn text_set(v: Seq<String>) -> Set<Seq<char>> {
    texts(v).to_set()
}

/// Whether a list of strings holds a text.
pub fn contains_text_item(v: &Vec<String>, t: &str) -> (r: bool)
    ensures
        r == texts(v@).contains(t@),
        r == text_set(v@).contains(t@),
{
    let key = owned(t);
    let n = v.len();
    let mut i: usize = 0;
    while i < n
        invariant
            n == v@.len(),
            i <= n,
            key@ == t@,
            forall|j: int| 0 <= j < i ==> v@[j]@ != t@,
        decreases n - i,
    {
        if v[i] == key {
            assert(texts(v@)[i as int] == t@);
            return true;
        }
        i = i + 1;
    }
    assert forall|j: int| 0 <= j < texts(v@).len() implies texts(v@)[j] != t@ by {
        assert(texts(v@)[j] == v@[j]@);
    }
    false
}

/// Whether a tool may be exposed: never when disabled; otherwise always
/// when the enabled list is empty, else only when it is listed there.
pub open spec fn tool_allowed(enabled: Set<Seq<char>>, disabled: Set<Seq<char>>, tool: Seq<char>) -> bool {
    if disabled.contains(tool) {
        false
    } else if enabled.is_empty() {
        true
    } else {
        enabled.contains(tool)
    }
}

/// The message for a server name that is blank.
pub open spec fn empty_name_message() -> Seq<char> {
    "Server name cannot be empty"@
}

/// What `ServerConfig::validate` answers, with the message of each error.
/// What an upstream URL `t` (trimmed) is judged from what parsing it gave:
/// it must have parsed, have a host and use `http` or `https`.
pub open spec fn url_check(t: Seq<char>, parsed: Result<(bool, Seq<char>, Seq<(Seq<char>, Seq<char>)>), Seq<char>>) -> Result<(), Seq<char>> {
    match parsed {
        Ok((has_host, scheme, _)) => {
            if !has_host {
                Err("URL '"@ + t + "' has no host"@)
            } else if scheme != "http"@ && scheme != "https"@ {
                Err("URL '"@ + t + "' must use http:// or https://"@)
            } else {
                Ok(())
            }
        },
        Err(e) => Err("URL '"@ + t + "' is invalid: "@ + e),
    }
}

/// Judges an upstream URL (already trimmed) from what parsing it gave.
pub fn check_parsed_url(url: &str, parsed: Result<ParsedUrl, String>) -> (r: Result<(), AppError>)
    ensures
        match (r, url_check(url@, parse_view(parsed))) {
            (Ok(()), Ok(())) => true,
            (Err(AppError::Config(m)), Err(t)) => m@ == t,
            _ => false,
        },
{
    match parsed {
        Ok(p) => {
            if !p.has_host {
                return Err(AppError::Config(join3("URL '", url, "' has no host")));
            }
            let is_http = text_eq(p.scheme.as_str(), "http");
            let is_https = text_eq(p.scheme.as_str(), "https");
            if !is_http && !is_https {
                return Err(AppError::Config(join3("URL '", url, "' must use http:// or https://")));
            }
            Ok(())
        },
        Err(e) => {
            let m = join3("URL '", url, "' is invalid: ");
            Err(AppError::Config(join2(m.as_str(), e.as_str())))
        },
    }
}

pub open spec fn validate_outcome(name: Seq<char>, ty: UpstreamType) -> Result<(), Seq<char>> {
    if trim(name).len() == 0 {
        Err("Server name cannot be empty"@)
    } else if has_delimiter(name) {
        Err("Server name '"@ + name + "' contains reserved delimiter '__'"@)
    } else {
        match ty {
            UpstreamType::Http { url } => {
                let t = trim(url@);
                if t.len() == 0 {
                    Err("HTTP URL cannot be empty"@)
                } else {
                    url_check(t, url_parse(t))
                }
            },
            UpstreamType::Stdio { command, args } => {
                if trim(command@).len() == 0 {
                    Err("Stdio command cannot be empty"@)
                } else {
                    Ok(())
                }
            },
        }
    }
}

impl ServerConfig {
    /// The set of explicitly enabled tools.
    pub open spec fn enabled_set(&self) -> Set<Seq<char>> {
        text_set(self.enabled_tools@)
    }

    /// The set of disabled tools.
    pub open spec fn disabled_set(&self) -> Set<Seq<char>> {
        text_set(self.disabled_tools@)
    }

    /// Neither tool list names a tool twice (as the sets they hold in the
    /// configuration file).
    pub open spec fn lists_unique(&self) -> bool {
        texts(self.enabled_tools@).no_duplicates() && texts(self.disabled_tools@).no_duplicates()
    }

    /// Whether the filter lets `tool_name` through.
    pub open spec fn allows(&self, tool_name: Seq<char>) -> bool {
        tool_allowed(self.enabled_set(), self.disabled_set(), tool_name)
    }

    /// Whether the tool filter lets `tool_name` through.
    pub fn is_tool_enabled(&self, tool_name: &str) -> (r: bool)
        ensures
            r == self.allows(tool_name@),
    {
        if contains_text_item(&self.disabled_tools, tool_name) {
            return false;
        }
        if self.enabled_tools.len() == 0 {
            assert(texts(self.enabled_tools@) =~= Seq::<Seq<char>>::empty());
            assert(self.enabled_set() =~= Set::<Seq<char>>::empty());
            return true;
        }
        proof {
            let x = texts(self.enabled_tools@)[0];
            assert(texts(self.enabled_tools@).contains(x));
            assert(self.enabled_set().contains(x));
            assert(!Set::<Seq<char>>::empty().contains(x));
            assert(!self.enabled_set().is_empty());
        }
        contains_text_item(&self.enabled_tools, tool_name)
    }

    /// Checks that the server config is well-formed: a non-blank name
    /// without the tool-name delimiter, and a usable http(s) URL or a
    /// non-blank command.
    pub fn validate(&self) -> (r: Result<(), AppError>)
        ensures
            match (r, validate_outcome(self.name@, self.ty)) {
                (Ok(()), Ok(())) => true,
                (Err(AppError::Config(m)), Err(t)) => m@ == t,
                _ => false,
            },
    {
        if is_blank(self.name.as_str()) {
            return Err(AppError::Config(owned("Server name cannot be empty")));
        }
        let delim = delimiter_chars();
        let name_chars = chars_of(self.name.as_str());
        if find_text(&name_chars, &delim).is_some() {
            let m = join3("Server name '", self.name.as_str(), "' contains reserved delimiter '__'");
            return Err(AppError::Config(m));
        }
        match &self.ty {
            UpstreamType::Http { url } => {
                let t = trimmed(url.as_str());
                if t.unicode_len() == 0 {
                    return Err(AppError::Config(owned("HTTP URL cannot be empty")));
                }
                check_parsed_url(t.as_str(), parse_url(t.as_str()))
            },
            UpstreamType::Stdio { command, .. } => {
                if is_blank(command.as_str()) {
                    return Err(AppError::Config(owned("Stdio command cannot be empty")));
                }
                Ok(())
            },
        }
    }
}

/// The tunnel mode used when the file names none.
pub fn default_tunnel_mode() -> (r: TunnelMode)
    ensures
        r is Disabled,
{
    TunnelMode::Disabled
}

/// The bind address used when the file names none.
pub fn default_bind_addr() -> (r: String)
    ensures
        r@ == DEFAULT_BIND_ADDR@,
{
    owned(DEFAULT_BIND_ADDR)
}

/// Whether a discovered tool is enabled when the file does not say.
pub fn default_true() -> (r: bool)
    ensures
        r,
{
    true
}

impl Default for TunnelConfig {
    fn default() -> (r: Self)
        ensures
            r.mode is Disabled,
            r.bind_addr@ == DEFAULT_BIND_ADDR@,
    {
        TunnelConfig { mode: default_tunnel_mode(), bind_addr: default_bind_addr() }
    }
}

impl Default for Config {
    fn default() -> (r: Self)
        ensures
            r.servers@.len() == 0,
            r.tunnel.mode is Disabled,
            r.tunnel.bind_addr@ == DEFAULT_BIND_ADDR@,
    {
        Config { servers: Vec::new(), tunnel: TunnelConfig::default() }
    }
}

impl TunnelConfig {
    /// The URL of the local server: `http://` and the bind address.
    pub fn base_url(&self) -> (r: String)
        ensures
            r@ == "http://"@ + self.bind_addr@,
    {
        join2("http://", self.bind_addr.as_str())
    }
}

/// The names of a list of servers.
pub open spec fn server_names(servers: Seq<ServerConfig>) -> Seq<Seq<char>> {
    servers.map_values(|s: ServerConfig| s.name@)
}

/// The repeated names of a list, in order: each name that equals an
/// earlier one, once per repetition.
pub open spec fn repeated(names: Seq<Seq<char>>) -> Seq<Seq<char>>
    decreases names.len(),
{
    if names.len() == 0 {
        Seq::empty()
    } else {
        let rest = repeated(names.drop_last());
        if names.drop_last().contains(names.last()) {
            rest.push(names.last())
        } else {
            rest
        }
    }
}

/// What `format!("{:?}", v)` gives for a list of strings (the `Debug`
/// rendering, with quoting and escapes).
pub uninterp spec fn debug_list(items: Seq<Seq<char>>) -> Seq<char>;

/// Calls `format!("{:?}", names)`. Claims the text is `debug_list` of the
/// names, which is named and not written out.
#[verifier::external_body]
pub(crate) fn debug_list_text(names: &Vec<String>) -> (r: String)
    ensures
        r@ == debug_list(texts(names@)),
{
    format!("{:?}", names)
}

/// What checking a loaded config answers: the message when some server
/// name repeats.
pub open spec fn duplicates_outcome(servers: Seq<ServerConfig>) -> Result<(), Seq<char>> {
    let d = repeated(server_names(servers));
    if d.len() == 0 {
        Ok(())
    } else {
        Err("Duplicate server names found: "@ + debug_list(d))
    }
}

impl Config {
    /// The repeated server names, in order of their repetition.
    pub fn duplicate_names(&self) -> (r: Vec<String>)
        ensures
            texts(r@) == repeated(server_names(self.servers@)),
    {
        let n = self.servers.len();
        let mut seen: Vec<String> = Vec::new();
        let mut dups: Vec<String> = Vec::new();
        let mut i: usize = 0;
        while i < n
            invariant
                n == self.servers@.len(),
                i <= n,
                texts(seen@) == server_names(self.servers@).subrange(0, i as int),
                texts(dups@) == repeated(server_names(self.servers@).subrange(0, i as int)),
            decreases n - i,
        {
            let ghost all = server_names(self.servers@);
            let name = &self.servers[i].name;
            let known = contains_text_item(&seen, name.as_str());
            proof {
                let pre = all.subrange(0, i as int);
                let next = all.subrange(0, i + 1);
                assert(next.drop_last() =~= pre);
                assert(next.last() == name@);
            }
            if known {
                let ghost before = texts(dups@);
                dups.push(name.clone());
                assert(texts(dups@) =~= before.push(name@));
            }
            let ghost before_seen = texts(seen@);
            seen.push(name.clone());
            assert(texts(seen@) =~= before_seen.push(name@));
            assert(server_names(self.servers@).subrange(0, i + 1) =~= server_names(self.servers@).subrange(0, i as int).push(name@));
            i = i + 1;
        }
        assert(server_names(self.servers@).subrange(0, n as int) =~= server_names(self.servers@));
        dups
    }

    /// Refuses a loaded config in which a server name repeats.
    pub fn check_duplicates(&self) -> (r: Result<(), AppError>)
        ensures
            match (r, duplicates_outcome(self.servers@)) {
                (Ok(()), Ok(())) => true,
                (Err(AppError::Config(m)), Err(t)) => m@ == t,
                _ => false,
            },
    {
        let d = self.duplicate_names();
        if d.len() == 0 {
            assert(texts(d@).len() == 0);
            return Ok(());
        }
        let list = debug_list_text(&d);
        Err(AppError::Config(join2("Duplicate server names found: ", list.as_str())))
    }

    /// Adds an HTTP upstream with no tool filter.
    pub fn add_http_server(&mut self, name: String, url: String)
        ensures
            final(self).tunnel == old(self).tunnel,
            final(self).servers@.len() == old(self).servers@.len() + 1,
            final(self).servers@.drop_last() == old(self).servers@,
            final(self).servers@.last().name@ == name@,
            final(self).servers@.last().ty matches UpstreamType::Http { url: u } && u@ == url@,
            final(self).servers@.last().enabled_tools@.len() == 0,
            final(self).servers@.last().disabled_tools@.len() == 0,
    {
        self.servers.push(ServerConfig {
            name,
            ty: UpstreamType::Http { url },
            enabled_tools: Vec::new(),
            disabled_tools: Vec::new(),
        });
        assert(self.servers@.drop_last() =~= old(self).servers@);
    }

    /// Adds a stdio upstream with no tool filter.
    pub fn add_stdio_server(&mut self, name: String, command: String, args: Vec<String>)
        ensures
            final(self).tunnel == old(self).tunnel,
            final(self).servers@.len() == old(self).servers@.len() + 1,
            final(self).servers@.drop_last() == old(self).servers@,
            final(self).servers@.last().name@ == name@,
            final(self).servers@.last().ty matches UpstreamType::Stdio { command: c, args: a }
                && c@ == command@ && a@ == args@,
            final(self).servers@.last().enabled_tools@.len() == 0,
            final(self).servers@.last().disabled_tools@.len() == 0,
    {
        self.servers.push(ServerConfig {
            name,
            ty: UpstreamType::Stdio { command, args },
            enabled_tools: Vec::new(),
            disabled_tools: Vec::new(),
        });
        assert(self.servers@.drop_last() =~= old(self).servers@);
    }

    /// Removes every upstream with the given name, keeping the others in
    /// order.
    pub fn remove_server(&mut self, name: &str)
        ensures
            final(self).tunnel == old(self).tunnel,
            final(self).servers@ == without_name(old(self).servers@, name@),
    {
        let mut rest: Vec<ServerConfig> = Vec::new();
        std::mem::swap(&mut rest, &mut self.servers);
        let ghost src = rest@;
        let ghost keep = other_name(name@);
        let n = rest.len();
        let key = owned(name);
        let mut kept: Vec<ServerConfig> = Vec::new();
        let mut i: usize = 0;
        while i < n
            invariant
                n == src.len(),
                i <= n,
                key@ == name@,
                keep == other_name(name@),
                rest@ == src.subrange(i as int, n as int),
                kept@ == src.subrange(0, i as int).filter(keep),
            decreases n - i,
        {
            let s = rest.remove(0);
            proof {
                assert(s == src[i as int]);
                assert(src.subrange(0, i + 1) =~= src.subrange(0, i as int).push(s));
                src.subrange(0, i as int).lemma_filter_push(s, keep);
                assert(rest@ =~= src.subrange(i + 1, n as int));
            }
            let same = text_eq(s.name.as_str(), key.as_str());
            if !same {
                kept.push(s);
            }
            i = i + 1;
        }
        assert(src.subrange(0, n as int) =~= src);
        self.servers = kept;
    }
}

/// `set` with `t` added when absent and removed when present.
pub open spec fn toggled(set: Set<Seq<char>>, t: Seq<char>) -> Set<Seq<char>> {
    if set.contains(t) {
        set.remove(t)
    } else {
        set.insert(t)
    }
}

/// A sequence with an item appended holds exactly the old items and it.
pub proof fn lemma_push_contains<A>(s: Seq<A>, a: A, x: A)
    ensures
        s.push(a).contains(x) <==> (s.contains(x) || x == a),
{
    let p = s.push(a);
    if p.contains(x) {
        let k = choose|k: int| 0 <= k < p.len() && p[k] == x;
        if k < s.len() {
            assert(s[k] == x);
        }
    }
    if s.contains(x) {
        let k = choose|k: int| 0 <= k < s.len() && s[k] == x;
        assert(p[k] == x);
    }
    if x == a {
        assert(p[p.len() - 1] == x);
    }
}

/// Appending an item a sequence lacks keeps its items distinct.
pub proof fn lemma_push_no_duplicates<A>(s: Seq<A>, a: A)
    requires
        s.no_duplicates(),
        !s.contains(a),
    ensures
        s.push(a).no_duplicates(),
{
    let p = s.push(a);
    assert forall|i: int, j: int| 0 <= i < p.len() && 0 <= j < p.len() && i != j implies p[i] != p[j] by {
        if i < s.len() && j < s.len() {
            assert(p[i] == s[i] && p[j] == s[j]);
        } else if i < s.len() {
            assert(p[i] == s[i]);
        } else if j < s.len() {
            assert(p[j] == s[j]);
        }
    }
}

/// `v` without the items equal to `t`, order kept; items that were
/// distinct stay distinct.
pub fn without_text(v: Vec<String>, t: &str) -> (r: Vec<String>)
    ensures
        text_set(r@) == text_set(v@).remove(t@),
        r@.len() <= v@.len(),
        texts(v@).no_duplicates() ==> texts(r@).no_duplicates(),
{
    let ghost src = v@;
    let n = v.len();
    let mut rest = v;
    let mut kept: Vec<String> = Vec::new();
    let mut i: usize = 0;
    while i < n
        invariant
            n == src.len(),
            i <= n,
            rest@ == src.subrange(i as int, n as int),
            kept@.len() <= i,
            forall|x: Seq<char>| texts(kept@).contains(x) <==> (texts(src.subrange(0, i as int)).contains(x) && x != t@),
            texts(src).no_duplicates() ==> texts(kept@).no_duplicates(),
        decreases n - i,
    {
        let s = rest.remove(0);
        let same = text_eq(s.as_str(), t);
        let ghost before = kept@;
        if !same {
            kept.push(s);
        }
        proof {
            assert(rest@ =~= src.subrange(i + 1, n as int));
            let pre = texts(src.subrange(0, i as int));
            let post = texts(src.subrange(0, i + 1));
            assert(post =~= pre.push(src[i as int]@));
            if !same {
                assert(texts(kept@) =~= texts(before).push(src[i as int]@));
                if texts(src).no_duplicates() {
                    if texts(before).contains(src[i as int]@) {
                        assert(pre.contains(src[i as int]@));
                        let k = choose|k: int| 0 <= k < pre.len() && pre[k] == src[i as int]@;
                        assert(texts(src)[k] == texts(src)[i as int]);
                        assert(false);
                    }
                    lemma_push_no_duplicates(texts(before), src[i as int]@);
                }
            } else {
                assert(texts(kept@) =~= texts(before));
            }
            assert forall|x: Seq<char>| texts(kept@).contains(x) <==> (post.contains(x) && x != t@) by {
                lemma_push_contains(pre, src[i as int]@, x);
                lemma_push_contains(texts(before), src[i as int]@, x);
            }
        }
        i = i + 1;
    }
    assert(src.subrange(0, n as int) =~= src);
    assert(text_set(kept@) =~= text_set(src).remove(t@));
    kept
}

impl ServerConfig {
    /// Flips whether `tool` is disabled: removes it from the disabled
    /// tools when present, adds it otherwise.
    pub fn toggle_disabled_tool(&mut self, tool: &str)
        ensures
            final(self).name == old(self).name,
            final(self).ty == old(self).ty,
            final(self).enabled_tools == old(self).enabled_tools,
            final(self).disabled_set() == toggled(old(self).disabled_set(), tool@),
            old(self).lists_unique() ==> final(self).lists_unique(),
    {
        if contains_text_item(&self.disabled_tools, tool) {
            let mut current: Vec<String> = Vec::new();
            std::mem::swap(&mut current, &mut self.disabled_tools);
            self.disabled_tools = without_text(current, tool);
        } else {
            let ghost before = self.disabled_tools@;
            self.disabled_tools.push(owned(tool));
            proof {
                assert(texts(self.disabled_tools@) =~= texts(before).push(tool@));
                assert forall|x: Seq<char>| texts(before).push(tool@).contains(x) <==> (texts(before).contains(x) || x == tool@) by {
                    lemma_push_contains(texts(before), tool@, x);
                }
                assert(self.disabled_set() =~= text_set(before).insert(tool@));
                if texts(before).no_duplicates() {
                    lemma_push_no_duplicates(texts(before), tool@);
                }
            }
        }
    }
}

/// The tool filter: a disabled tool is never exposed, whatever the enabled
/// list says; with an empty enabled list every other tool is exposed; with
/// a non-empty one exactly the listed tools that are not disabled.
pub proof fn lemma_tool_filter_rule(sc: ServerConfig, tool: Seq<char>)
    ensures
        sc.disabled_set().contains(tool) ==> !sc.allows(tool),
        (sc.enabled_set().is_empty() && !sc.disabled_set().contains(tool)) ==> sc.allows(tool),
        !sc.enabled_set().is_empty() ==> (sc.allows(tool) <==> (sc.enabled_set().contains(tool) && !sc.disabled_set().contains(tool))),
{
}

/// Toggling the same tool twice leaves the disabled set as it was, and a
/// single toggle flips whether the tool is disabled.
pub proof fn lemma_toggle_twice(set: Set<Seq<char>>, tool: Seq<char>)
    ensures
        toggled(toggled(set, tool), tool) == set,
        toggled(set, tool).contains(tool) == !set.contains(tool),
        forall|x: Seq<char>| x != tool ==> (toggled(set, tool).contains(x) == set.contains(x)),
{
    assert(toggled(toggled(set, tool), tool) =~= set);
}

/// A loaded config is accepted exactly when no two servers share a name.
pub proof fn lemma_duplicates_iff_repeated_name(names: Seq<Seq<char>>)
    ensures
        repeated(names).len() == 0 <==> names.no_duplicates(),
    decreases names.len(),
{
    if names.len() > 0 {
        let pre = names.drop_last();
        lemma_duplicates_iff_repeated_name(pre);
        lemma_repeated_len(pre);
        if names.no_duplicates() {
            assert(pre.no_duplicates()) by {
                assert forall|i: int, j: int| 0 <= i < pre.len() && 0 <= j < pre.len() && i != j implies pre[i] != pre[j] by {
                    assert(pre[i] == names[i] && pre[j] == names[j]);
                }
            }
            assert(!pre.contains(names.last())) by {
                if pre.contains(names.last()) {
                    let k = choose|k: int| 0 <= k < pre.len() && pre[k] == names.last();
                    assert(names[k] == names[names.len() - 1]);
                }
            }
        } else {
            let (i, j) = choose|i: int, j: int| 0 <= i < names.len() && 0 <= j < names.len() && i != j && names[i] == names[j];
            if i == names.len() - 1 || j == names.len() - 1 {
                let k = if i == names.len() - 1 { j } else { i };
                assert(pre[k] == names.last());
                assert(pre.contains(names.last()));
            } else {
                assert(pre[i] == pre[j]);
                assert(!pre.no_duplicates());
            }
        }
        if pre.no_duplicates() && !pre.contains(names.last()) {
            assert forall|i: int, j: int| 0 <= i < names.len() && 0 <= j < names.len() && i != j implies names[i] != names[j] by {
                if i == names.len() - 1 {
                    assert(names[j] == pre[j]);
                } else if j == names.len() - 1 {
                    assert(names[i] == pre[i]);
                } else {
                    assert(names[i] == pre[i] && names[j] == pre[j]);
                }
            }
        }
    }
}

proof fn lemma_repeated_len(names: Seq<Seq<char>>)
    ensures
        repeated(names).len() <= names.len(),
    decreases names.len(),
{
    if names.len() > 0 {
        lemma_repeated_len(names.drop_last());
    }
}

/// The servers without those named `name`, in order.
pub open spec fn without_name(servers: Seq<ServerConfig>, name: Seq<char>) -> Seq<ServerConfig> {
    servers.filter(other_name(name))
}

/// Whether a server is named other than `name`.
pub open spec fn other_name(name: Seq<char>) -> spec_fn(ServerConfig) -> bool {
    |s: ServerConfig| s.name@ != name
}

/// After removing a name, no server has it, and every server with another
/// name is still there.
pub proof fn lemma_remove_server_effect(servers: Seq<ServerConfig>, name: Seq<char>)
    ensures
        forall|i: int| 0 <= i < without_name(servers, name).len() ==>
            #[trigger] without_name(servers, name)[i].name@ != name,
        forall|s: ServerConfig| s.name@ != name ==> (servers.contains(s) <==> #[trigger] without_name(servers, name).contains(s)),
{
    let keep = other_name(name);
    assert forall|i: int| 0 <= i < without_name(servers, name).len() implies #[trigger] without_name(servers, name)[i].name@ != name by {
        servers.lemma_filter_pred(keep, i);
    }
    assert forall|s: ServerConfig| s.name@ != name implies (servers.contains(s) <==> #[trigger] without_name(servers, name).contains(s)) by {
        if servers.contains(s) {
            let k = choose|k: int| 0 <= k < servers.len() && servers[k] == s;
            servers.lemma_filter_contains(keep, k);
        }
        if without_name(servers, name).contains(s) {
            servers.lemma_filter_contains_rev(keep, s);
        }
    }
}

/// A non-empty URL text that parses with a host and an `http` or `https`
/// scheme.
pub open spec fn usable_url(t: Seq<char>) -> bool {
    t.len() > 0 && match url_parse(t) {
        Ok((has_host, scheme, _)) => has_host && (scheme == "http"@ || scheme == "https"@),
        Err(_) => false,
    }
}

/// Two underscores in a row at `i`.
pub open spec fn double_underscore_at(name: Seq<char>, i: int) -> bool {
    0 <= i && i + 1 < name.len() && name[i] == '_' && name[i + 1] == '_'
}

/// The name rule of `validate`: a non-blank name is refused for the
/// delimiter exactly when it holds two underscores in a row (a single
/// underscore is fine). A name without them passes with a non-blank stdio
/// command, or with an HTTP URL that parses with a host and an `http` or
/// `https` scheme.
pub proof fn lemma_name_rule(name: Seq<char>, ty: UpstreamType)
    requires
        trim(name).len() > 0,
    ensures
        (exists|i: int| double_underscore_at(name, i)) ==>
            validate_outcome(name, ty) == Err::<(), Seq<char>>("Server name '"@ + name + "' contains reserved delimiter '__'"@),
        (forall|i: int| !double_underscore_at(name, i)) ==> match ty {
            UpstreamType::Stdio { command, .. } => trim(command@).len() > 0 ==> validate_outcome(name, ty) is Ok,
            UpstreamType::Http { url } => usable_url(trim(url@)) ==> validate_outcome(name, ty) is Ok,
        },
{
    if exists|i: int| double_underscore_at(name, i) {
        let i = choose|i: int| double_underscore_at(name, i);
        crate::mcp::tool_filter::lemma_delimiter_at(name, i);
        assert(has_delimiter(name));
    }
    if forall|i: int| !double_underscore_at(name, i) {
        if has_delimiter(name) {
            let j = choose|j: int| crate::text::occurs_at(name, delimiter(), j);
            crate::mcp::tool_filter::lemma_delimiter_at(name, j);
            assert(double_underscore_at(name, j));
        }
    }
}

} // verus!
