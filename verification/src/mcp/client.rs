//! The aggregated client's decisions: which upstream tools are exposed and
//! under which names, and which credentials an HTTP upstream is reached with.

use vstd::prelude::*;
use crate::error::AppError;
use crate::config::{ServerConfig, texts};
use crate::app::{server_index, find_server, lemma_server_index_bound};
use crate::mcp::tool_filter::{prefix_tool_name, prefix_result};
use crate::text::{join2, text_eq};

verus! {

/// The indices of the tools that a server's filter lets through, in
/// order; all of them when the server has no configuration.
pub open spec fn kept_indices(cfg: Option<ServerConfig>, tools: Seq<Seq<char>>) -> Seq<int>
    decreases tools.len(),
{
    if tools.len() == 0 {
        Seq::empty()
    } else {
        let rest = kept_indices(cfg, tools.drop_last());
        let allowed = match cfg {
            Some(c) => c.allows(tools.last()),
            None => true,
        };
        if allowed { rest.push(tools.len() - 1) } else { rest }
    }
}

/// A tool exposed by the aggregated server: which upstream (by position),
/// which of its tools (by position), and the prefixed name.
pub struct ListedTool {
    pub upstream: usize,
    pub tool: usize,
    pub name: String,
}

impl ListedTool {
    /// The entry as plain values.
    pub open spec fn parts(&self) -> (int, int, Seq<char>) {
        (self.upstream as int, self.tool as int, self.name@)
    }
}

/// The entries for the tools at positions `ks` of upstream `i` named
/// `name`, or the message of the first name that cannot be prefixed.
pub open spec fn entries_for(i: int, name: Seq<char>, tools: Seq<Seq<char>>, ks: Seq<int>) -> Result<Seq<(int, int, Seq<char>)>, Seq<char>>
    decreases ks.len(),
{
    if ks.len() == 0 {
        Ok(Seq::empty())
    } else {
        match entries_for(i, name, tools, ks.drop_last()) {
            Err(e) => Err(e),
            Ok(acc) => match prefix_result(name, tools[ks.last()]) {
                Err(e) => Err(e),
                Ok(p) => Ok(acc.push((i, ks.last(), p))),
            },
        }
    }
}

/// The configuration of an upstream: the first one with its name.
pub open spec fn config_for(configs: Seq<ServerConfig>, name: Seq<char>) -> Option<ServerConfig> {
    match server_index(configs, name) {
        Some(j) => Some(configs[j]),
        None => None,
    }
}

/// The aggregated tool list: for each upstream in order, its tools that
/// pass its filter, each under its prefixed name; or the message of the
/// first name that cannot be prefixed.
pub open spec fn listing(ups: Seq<(Seq<char>, Seq<Seq<char>>)>, configs: Seq<ServerConfig>) -> Result<Seq<(int, int, Seq<char>)>, Seq<char>>
    decreases ups.len(),
{
    if ups.len() == 0 {
        Ok(Seq::empty())
    } else {
        match listing(ups.drop_last(), configs) {
            Err(e) => Err(e),
            Ok(acc) => {
                let (name, tools) = ups.last();
                let ks = kept_indices(config_for(configs, name), tools);
                match entries_for(ups.len() - 1, name, tools, ks) {
                    Err(e) => Err(e),
                    Ok(es) => Ok(acc + es),
                }
            },
        }
    }
}

/// Once the entries of a prefix of positions fail, those of the whole
/// positions fail with the same message.
pub proof fn lemma_entries_err_extends(i: int, name: Seq<char>, tools: Seq<Seq<char>>, ks: Seq<int>, k: int)
    requires
        0 <= k <= ks.len(),
        entries_for(i, name, tools, ks.subrange(0, k)) is Err,
    ensures
        entries_for(i, name, tools, ks) == entries_for(i, name, tools, ks.subrange(0, k)),
    decreases ks.len() - k,
{
    if k < ks.len() {
        assert(ks.subrange(0, ks.len() - 1).subrange(0, k) =~= ks.subrange(0, k));
        lemma_entries_err_extends(i, name, tools, ks.subrange(0, ks.len() - 1), k);
        assert(ks.drop_last() =~= ks.subrange(0, ks.len() - 1));
    } else {
        assert(ks.subrange(0, k) =~= ks);
    }
}

/// Once the listing of a prefix of upstreams fails, that of all of them
/// fails with the same message.
pub proof fn lemma_listing_err_extends(ups: Seq<(Seq<char>, Seq<Seq<char>>)>, configs: Seq<ServerConfig>, k: int)
    requires
        0 <= k <= ups.len(),
        listing(ups.subrange(0, k), configs) is Err,
    ensures
        listing(ups, configs) == listing(ups.subrange(0, k), configs),
    decreases ups.len() - k,
{
    if k < ups.len() {
        assert(ups.subrange(0, ups.len() - 1).subrange(0, k) =~= ups.subrange(0, k));
        lemma_listing_err_extends(ups.subrange(0, ups.len() - 1), configs, k);
        assert(ups.drop_last() =~= ups.subrange(0, ups.len() - 1));
    } else {
        assert(ups.subrange(0, k) =~= ups);
    }
}

/// The upstreams' names and tool names as plain values.
pub open spec fn upstream_views(ups: Seq<(String, Vec<String>)>) -> Seq<(Seq<char>, Seq<Seq<char>>)> {
    ups.map_values(|p: (String, Vec<String>)| (p.0@, texts(p.1@)))
}

/// The positions of the tools that `config` lets through, in order
/// (no configuration: all of them).
pub fn apply_filter(config: Option<&ServerConfig>, tool_names: &Vec<String>) -> (r: Vec<usize>)
    ensures
        r@.map_values(|k: usize| k as int) == kept_indices(
            match config { Some(c) => Some(*c), None => None },
            texts(tool_names@),
        ),
        forall|j: int| 0 <= j < r@.len() ==> r@[j] < tool_names@.len(),
{
    let ghost cfg = match config { Some(c) => Some(*c), None => None::<ServerConfig> };
    let n = tool_names.len();
    let mut out: Vec<usize> = Vec::new();
    let mut i: usize = 0;
    while i < n
        invariant
            n == tool_names@.len(),
            i <= n,
            cfg == (match config { Some(c) => Some(*c), None => None::<ServerConfig> }),
            out@.map_values(|k: usize| k as int) == kept_indices(cfg, texts(tool_names@).subrange(0, i as int)),
            forall|j: int| 0 <= j < out@.len() ==> out@[j] < i,
        decreases n - i,
    {
        let allowed = match config {
            Some(c) => c.is_tool_enabled(tool_names[i].as_str()),
            None => true,
        };
        proof {
            let pre = texts(tool_names@).subrange(0, i as int);
            let next = texts(tool_names@).subrange(0, i + 1);
            assert(next.drop_last() =~= pre);
            assert(next.last() == tool_names@[i as int]@);
        }
        let ghost before = out@;
        if allowed {
            out.push(i);
            assert(out@.map_values(|k: usize| k as int) =~= before.map_values(|k: usize| k as int).push(i as int));
        }
        i = i + 1;
    }
    assert(texts(tool_names@).subrange(0, n as int) =~= texts(tool_names@));
    out
}

/// Plans the aggregated tool list from each upstream's name and tool
/// names: the exposed tools in order, or the first prefixing error.
pub fn plan_tool_listing(upstreams: &Vec<(String, Vec<String>)>, configs: &Vec<ServerConfig>) -> (r: Result<Vec<ListedTool>, AppError>)
    ensures
        match (r, listing(upstream_views(upstreams@), configs@)) {
            (Ok(v), Ok(l)) => v@.map_values(|t: ListedTool| t.parts()) == l,
            (Err(AppError::Config(m)), Err(e)) => m@ == e,
            _ => false,
        },
{
    let n = upstreams.len();
    let ghost ups = upstream_views(upstreams@);
    let mut out: Vec<ListedTool> = Vec::new();
    let mut i: usize = 0;
    assert(ups.subrange(0, 0) =~= Seq::<(Seq<char>, Seq<Seq<char>>)>::empty());
    assert(out@.map_values(|t: ListedTool| t.parts()) =~= Seq::<(int, int, Seq<char>)>::empty());
    while i < n
        invariant
            n == upstreams@.len(),
            ups == upstream_views(upstreams@),
            i <= n,
            listing(ups.subrange(0, i as int), configs@) == Ok::<Seq<(int, int, Seq<char>)>, Seq<char>>(out@.map_values(|t: ListedTool| t.parts())),
        decreases n - i,
    {
        let name = &upstreams[i].0;
        let tools = &upstreams[i].1;
        assert(ups.len() == n);
        assert(ups[i as int] == (name@, texts(tools@)));
        let cfg_index = find_server(configs, name);
        proof {
            lemma_server_index_bound(configs@, name@);
        }
        let cfg = match cfg_index {
            Some(j) => Some(&configs[j]),
            None => None,
        };
        let ghost cfgv = config_for(configs@, name@);
        assert(cfgv == (match cfg { Some(c) => Some(*c), None => None::<ServerConfig> }));
        let kept = apply_filter(cfg, tools);
        let ghost ks = kept_indices(cfgv, texts(tools@));
        let ghost acc = out@.map_values(|t: ListedTool| t.parts());
        let m = kept.len();
        let mut k: usize = 0;
        while k < m
            invariant
                m == kept@.len(),
                k <= m,
                kept@.map_values(|x: usize| x as int) == ks,
                forall|j: int| 0 <= j < kept@.len() ==> kept@[j] < tools@.len(),
                i < n,
                n == upstreams@.len(),
                ups == upstream_views(upstreams@),
                ups.len() == n,
                ups[i as int] == (name@, texts(tools@)),
                ks == kept_indices(config_for(configs@, name@), texts(tools@)),
                listing(ups.subrange(0, i as int), configs@) == Ok::<Seq<(int, int, Seq<char>)>, Seq<char>>(acc),
                entries_for(i as int, name@, texts(tools@), ks.subrange(0, k as int)) is Ok,
                out@.map_values(|t: ListedTool| t.parts()) == acc + entries_for(i as int, name@, texts(tools@), ks.subrange(0, k as int))->Ok_0,
            decreases m - k,
        {
            let t = kept[k];
            proof {
                assert(ks[k as int] == t as int);
                let pre = ks.subrange(0, k as int);
                let next = ks.subrange(0, k + 1);
                assert(next.drop_last() =~= pre);
                assert(next.last() == t as int);
                assert(texts(tools@)[t as int] == tools@[t as int]@);
            }
            match prefix_tool_name(name.as_str(), tools[t].as_str()) {
                Err(e) => {
                    proof {
                        assert(prefix_result(name@, texts(tools@)[t as int]) is Err);
                        assert(entries_for(i as int, name@, texts(tools@), ks.subrange(0, k + 1)) is Err);
                        lemma_entries_err_extends(i as int, name@, texts(tools@), ks, k + 1);
                        assert(entries_for(i as int, name@, texts(tools@), ks) is Err);
                        assert(ks == kept_indices(config_for(configs@, name@), texts(tools@)));
                        assert(ups.subrange(0, i + 1).drop_last() =~= ups.subrange(0, i as int));
                        assert(ups.subrange(0, i + 1).last() == ups[i as int]);
                        assert(ups[i as int] == (name@, texts(tools@)));
                        assert(listing(ups.subrange(0, i + 1), configs@) is Err);
                        lemma_listing_err_extends(ups, configs@, i + 1);
                    }
                    return Err(e);
                },
                Ok(p) => {
                    let ghost before = out@.map_values(|t: ListedTool| t.parts());
                    out.push(ListedTool { upstream: i, tool: t, name: p });
                    assert(out@.map_values(|t: ListedTool| t.parts()) =~= before.push((i as int, t as int, p@)));
                },
            }
            k = k + 1;
        }
        proof {
            assert(ks.subrange(0, m as int) =~= ks);
            assert(ups.subrange(0, i + 1).drop_last() =~= ups.subrange(0, i as int));
            assert(ups.subrange(0, i + 1).last() == ups[i as int]);
            assert(ups[i as int] == (name@, texts(tools@)));
        }
        i = i + 1;
    }
    assert(ups.subrange(0, n as int) =~= ups);
    Ok(out)
}

/// The header value that carries a bearer token.
pub fn bearer_header_value(token: &str) -> (r: String)
    ensures
        r@ == "Bearer "@ + token@,
{
    join2("Bearer ", token)
}

/// How refreshing an expired OAuth token ended.
pub enum RefreshOutcome {
    /// A new access token.
    Refreshed(String),
    /// The stored credentials have no refresh token.
    NoRefreshToken,
    /// The server does not support OAuth.
    NoAuthorizationSupport,
    /// The refresh failed.
    Failed,
}

/// How the full PKCE authorization ended.
pub enum PkceOutcome {
    /// An access token was obtained.
    Authorized(String),
    /// The server does not support OAuth.
    NoAuthorizationSupport,
}

/// Whether an expired token is refreshed: only when it has a refresh
/// token and a client id was recorded with it.
pub fn should_refresh(has_refresh_token: bool, client_id: &str) -> (r: bool)
    ensures
        r == (has_refresh_token && client_id@.len() > 0),
{
    has_refresh_token && client_id.unicode_len() > 0
}

/// What is known of a server's stored OAuth token.
pub struct StoredTokenFacts {
    pub access_token: String,
    pub refresh_token: Option<String>,
    /// The client id the token was issued to (empty when unknown).
    pub client_id: String,
    /// When it was received, in seconds since the Unix epoch.
    pub received_at: Option<u64>,
    /// Its lifetime in seconds.
    pub lifetime_secs: Option<u64>,
}

impl StoredTokenFacts {
    /// The facts as plain values: access token, refresh token, client id,
    /// time received and lifetime.
    pub open spec fn parts(&self) -> (Seq<char>, Option<Seq<char>>, Seq<char>, Option<u64>, Option<u64>) {
        (
            self.access_token@,
            match self.refresh_token { Some(t) => Some(t@), None => None },
            self.client_id@,
            self.received_at,
            self.lifetime_secs,
        )
    }
}

/// Where choosing the token for an HTTP upstream stands.
pub enum TokenState {
    /// Nothing read yet.
    Start,
    /// Waiting for a refresh.
    Refreshing,
    /// Waiting for the full authorization.
    Authorizing,
    /// Decided.
    Done,
}

/// What the outside work reported.
pub enum TokenEvent {
    /// The stored token was read (none when there is no token file).
    Loaded(Option<StoredTokenFacts>),
    /// A refresh ended.
    RefreshEnded(RefreshOutcome),
    /// The full authorization ended.
    PkceEnded(PkceOutcome),
}

/// The outside work to do next.
pub enum TokenAction {
    /// Connect with the stored token.
    UseStored(String),
    /// Refresh the token for this client id with this refresh token.
    Refresh { client_id: String, refresh_token: String },
    /// Save the token just obtained, then connect with this access token.
    SaveAndUse(String),
    /// Run the full authorization (PKCE) in the browser.
    RunPkce,
    /// Connect without a token (the server has no OAuth).
    ConnectWithoutToken,
    /// Nothing: the event does not belong to this stage.
    Nothing,
}

/// The order of the stages.
pub open spec fn token_stage(s: TokenState) -> nat {
    match s {
        TokenState::Start => 0,
        TokenState::Refreshing => 1,
        TokenState::Authorizing => 2,
        TokenState::Done => 3,
    }
}

/// The next stage and action for a stage and an event at time `now`: a
/// stored token still in its lifetime is used; an expired one with a
/// refresh token and a client id is refreshed; otherwise (and when a
/// refresh does not yield a token) the full authorization runs; a new
/// token is saved and used; a server without OAuth is reached without one.
pub open spec fn token_step_matches(state: TokenState, event: TokenEvent, now: u64, next: TokenState, act: TokenAction) -> bool {
    match (state, event) {
        (TokenState::Start, TokenEvent::Loaded(None)) => next is Authorizing && act is RunPkce,
        (TokenState::Start, TokenEvent::Loaded(Some(f))) =>
            if crate::mcp::oauth::token_usable(f.received_at, f.lifetime_secs, now) {
                next is Done && (act matches TokenAction::UseStored(t) && t@ == f.access_token@)
            } else if f.refresh_token is Some && f.client_id@.len() > 0 {
                &&& next is Refreshing
                &&& act matches TokenAction::Refresh { client_id, refresh_token }
                &&& client_id@ == f.client_id@
                &&& f.refresh_token matches Some(rt) && refresh_token@ == rt@
            } else {
                next is Authorizing && act is RunPkce
            },
        (TokenState::Refreshing, TokenEvent::RefreshEnded(RefreshOutcome::Refreshed(t))) =>
            next is Done && (act matches TokenAction::SaveAndUse(u) && u@ == t@),
        (TokenState::Refreshing, TokenEvent::RefreshEnded(_)) => next is Authorizing && act is RunPkce,
        (TokenState::Authorizing, TokenEvent::PkceEnded(PkceOutcome::Authorized(t))) =>
            next is Done && (act matches TokenAction::SaveAndUse(u) && u@ == t@),
        (TokenState::Authorizing, TokenEvent::PkceEnded(PkceOutcome::NoAuthorizationSupport)) =>
            next is Done && act is ConnectWithoutToken,
        (s, _) => next == s && act is Nothing,
    }
}

/// One step of choosing the token for an HTTP upstream: from the stage and
/// what the last outside work reported, the next stage and the work to do.
pub fn next_token_step(state: TokenState, event: TokenEvent, now: u64) -> (r: (TokenState, TokenAction))
    ensures
        token_step_matches(state, event, now, r.0, r.1),
{
    match (state, event) {
        (TokenState::Start, TokenEvent::Loaded(None)) => (TokenState::Authorizing, TokenAction::RunPkce),
        (TokenState::Start, TokenEvent::Loaded(Some(f))) => {
            if crate::mcp::oauth::token_still_valid(f.received_at, f.lifetime_secs, now) {
                (TokenState::Done, TokenAction::UseStored(f.access_token))
            } else {
                match f.refresh_token {
                    Some(rt) => {
                        if should_refresh(true, f.client_id.as_str()) {
                            (TokenState::Refreshing, TokenAction::Refresh { client_id: f.client_id, refresh_token: rt })
                        } else {
                            (TokenState::Authorizing, TokenAction::RunPkce)
                        }
                    },
                    None => (TokenState::Authorizing, TokenAction::RunPkce),
                }
            }
        },
        (TokenState::Refreshing, TokenEvent::RefreshEnded(outcome)) => match outcome {
            RefreshOutcome::Refreshed(t) => (TokenState::Done, TokenAction::SaveAndUse(t)),
            _ => (TokenState::Authorizing, TokenAction::RunPkce),
        },
        (TokenState::Authorizing, TokenEvent::PkceEnded(outcome)) => match outcome {
            PkceOutcome::Authorized(t) => (TokenState::Done, TokenAction::SaveAndUse(t)),
            PkceOutcome::NoAuthorizationSupport => (TokenState::Done, TokenAction::ConnectWithoutToken),
        },
        (s, _) => (s, TokenAction::Nothing),
    }
}

/// The token choice always moves forward: every step that asks for work
/// goes to a later stage, so at most three steps lead from the start to a
/// decision; once decided, nothing more is asked.
pub proof fn lemma_token_steps_advance(state: TokenState, event: TokenEvent, now: u64, next: TokenState, act: TokenAction)
    requires
        token_step_matches(state, event, now, next, act),
    ensures
        !(act is Nothing) ==> token_stage(next) > token_stage(state),
        act is Nothing ==> next == state,
        state is Done ==> act is Nothing,
        (act is UseStored || act is SaveAndUse || act is ConnectWithoutToken) ==> next is Done,
{
}

/// The kept positions are positions of the list, in increasing order, of
/// tools that the filter lets through.
pub proof fn lemma_kept_indices(cfg: Option<ServerConfig>, tools: Seq<Seq<char>>)
    ensures
        forall|j: int| #![trigger kept_indices(cfg, tools)[j]] 0 <= j < kept_indices(cfg, tools).len() ==> {
            let k = kept_indices(cfg, tools)[j];
            &&& 0 <= k < tools.len()
            &&& (cfg matches Some(c) ==> c.allows(tools[k]))
        },
    decreases tools.len(),
{
    if tools.len() > 0 {
        lemma_kept_indices(cfg, tools.drop_last());
        let rest = kept_indices(cfg, tools.drop_last());
        assert forall|j: int| #![trigger kept_indices(cfg, tools)[j]] 0 <= j < kept_indices(cfg, tools).len() implies {
            let k = kept_indices(cfg, tools)[j];
            &&& 0 <= k < tools.len()
            &&& (cfg matches Some(c) ==> c.allows(tools[k]))
        } by {
            if j < rest.len() {
                assert(kept_indices(cfg, tools)[j] == rest[j]);
                assert(tools[rest[j]] == tools.drop_last()[rest[j]]);
            }
        }
    }
}

/// The entries of one upstream are its kept positions, in order, each
/// under the prefixed name; none of the names involved holds the
/// delimiter.
pub proof fn lemma_entries_shape(i: int, name: Seq<char>, tools: Seq<Seq<char>>, ks: Seq<int>)
    requires
        entries_for(i, name, tools, ks) is Ok,
    ensures
        ({
            let es = entries_for(i, name, tools, ks)->Ok_0;
            &&& es.len() == ks.len()
            &&& forall|j: int| #![trigger es[j]] 0 <= j < es.len() ==> {
                &&& es[j].0 == i
                &&& es[j].1 == ks[j]
                &&& es[j].2 == crate::mcp::tool_filter::prefixed_name(name, tools[ks[j]])
                &&& !crate::mcp::tool_filter::has_delimiter(name)
                &&& !crate::mcp::tool_filter::has_delimiter(tools[ks[j]])
            }
        }),
    decreases ks.len(),
{
    if ks.len() > 0 {
        lemma_entries_shape(i, name, tools, ks.drop_last());
        let es = entries_for(i, name, tools, ks)->Ok_0;
        let prev = entries_for(i, name, tools, ks.drop_last())->Ok_0;
        assert forall|j: int| #![trigger es[j]] 0 <= j < es.len() implies {
            &&& es[j].0 == i
            &&& es[j].1 == ks[j]
            &&& es[j].2 == crate::mcp::tool_filter::prefixed_name(name, tools[ks[j]])
            &&& !crate::mcp::tool_filter::has_delimiter(name)
            &&& !crate::mcp::tool_filter::has_delimiter(tools[ks[j]])
        } by {
            if j < prev.len() {
                assert(es[j] == prev[j]);
                assert(ks[j] == ks.drop_last()[j]);
            }
        }
    }
}

/// Every entry of a successful listing names an upstream by position and
/// one of its tools that the upstream's filter lets through, under the
/// prefixed name, and neither name holds the delimiter.
pub proof fn lemma_listing_shape(ups: Seq<(Seq<char>, Seq<Seq<char>>)>, configs: Seq<ServerConfig>)
    requires
        listing(ups, configs) is Ok,
    ensures
        forall|j: int| #![trigger listing(ups, configs)->Ok_0[j]] 0 <= j < listing(ups, configs)->Ok_0.len() ==> {
            let e = listing(ups, configs)->Ok_0[j];
            let (name, tools) = ups[e.0];
            &&& 0 <= e.0 < ups.len()
            &&& 0 <= e.1 < tools.len()
            &&& (config_for(configs, name) matches Some(c) ==> c.allows(tools[e.1]))
            &&& e.2 == crate::mcp::tool_filter::prefixed_name(name, tools[e.1])
            &&& !crate::mcp::tool_filter::has_delimiter(name)
            &&& !crate::mcp::tool_filter::has_delimiter(tools[e.1])
        },
    decreases ups.len(),
{
    if ups.len() > 0 {
        let pre = ups.drop_last();
        lemma_listing_shape(pre, configs);
        let acc = listing(pre, configs)->Ok_0;
        let (name, tools) = ups.last();
        let ks = kept_indices(config_for(configs, name), tools);
        lemma_kept_indices(config_for(configs, name), tools);
        lemma_entries_shape(ups.len() - 1, name, tools, ks);
        let es = entries_for(ups.len() - 1, name, tools, ks)->Ok_0;
        let l = listing(ups, configs)->Ok_0;
        assert(l == acc + es);
        assert forall|j: int| #![trigger listing(ups, configs)->Ok_0[j]] 0 <= j < listing(ups, configs)->Ok_0.len() implies {
            let e = listing(ups, configs)->Ok_0[j];
            let (name, tools) = ups[e.0];
            &&& 0 <= e.0 < ups.len()
            &&& 0 <= e.1 < tools.len()
            &&& (config_for(configs, name) matches Some(c) ==> c.allows(tools[e.1]))
            &&& e.2 == crate::mcp::tool_filter::prefixed_name(name, tools[e.1])
            &&& !crate::mcp::tool_filter::has_delimiter(name)
            &&& !crate::mcp::tool_filter::has_delimiter(tools[e.1])
        } by {
            if j < acc.len() {
                assert(l[j] == acc[j]);
                assert(listing(pre, configs)->Ok_0[j] == acc[j]);
                assert(ups[acc[j].0] == pre[acc[j].0]);
            } else {
                let jj = j - acc.len();
                assert(l[j] == es[jj]);
                assert(es[jj].1 == ks[jj]);
            }
        }
    }
}

/// Namespace routing: every tool of a successful listing, called by its
/// exposed name, splits back into its upstream's name and its own name
/// (unless that upstream's name ends with an underscore), and it is a
/// tool the upstream's filter lets through.
pub proof fn lemma_listed_names_route_back(ups: Seq<(Seq<char>, Seq<Seq<char>>)>, configs: Seq<ServerConfig>, j: int)
    requires
        listing(ups, configs) is Ok,
        0 <= j < listing(ups, configs)->Ok_0.len(),
        !crate::mcp::tool_filter::ends_with_underscore(ups[listing(ups, configs)->Ok_0[j].0].0),
    ensures
        ({
            let e = listing(ups, configs)->Ok_0[j];
            let (name, tools) = ups[e.0];
            &&& crate::mcp::tool_filter::split_at_delimiter(e.2) == Some((name, tools[e.1]))
            &&& (config_for(configs, name) matches Some(c) ==> c.allows(tools[e.1]))
        }),
{
    lemma_listing_shape(ups, configs);
    let e = listing(ups, configs)->Ok_0[j];
    let (name, tools) = ups[e.0];
    crate::mcp::tool_filter::lemma_split_prefixed_name(name, tools[e.1]);
}

/// A stored token is used as it is only while it is in its lifetime (or
/// its lifetime is unknown): one received at `r` with lifetime `l` is never
/// sent once `now >= r + l`. Then it is refreshed when it has a refresh
/// token and a client id, and the full authorization runs otherwise.
pub proof fn lemma_expired_token_never_used(f: StoredTokenFacts, now: u64, next: TokenState, act: TokenAction)
    requires
        token_step_matches(TokenState::Start, TokenEvent::Loaded(Some(f)), now, next, act),
    ensures
        (f.received_at, f.lifetime_secs) matches (Some(r), Some(l)) && now >= r + l ==> {
            &&& !(act is UseStored)
            &&& (f.refresh_token is Some && f.client_id@.len() > 0) ==>
                    (act matches TokenAction::Refresh { client_id, refresh_token }
                        && client_id@ == f.client_id@ && refresh_token@ == f.refresh_token.unwrap()@
                        && next is Refreshing)
            &&& (f.refresh_token is None || f.client_id@.len() == 0) ==> (act is RunPkce && next is Authorizing)
        },
        ((f.received_at, f.lifetime_secs) matches (Some(r), Some(l)) && now < r + l)
            || f.received_at is None || f.lifetime_secs is None
            ==> (act matches TokenAction::UseStored(t) && t@ == f.access_token@ && next is Done),
{
}

/// Whatever the stage and the report, a stored token is only ever handed
/// out right after it was read, and only while it is in its lifetime.
pub proof fn lemma_used_token_is_live(state: TokenState, event: TokenEvent, now: u64, next: TokenState, act: TokenAction)
    requires
        token_step_matches(state, event, now, next, act),
        act is UseStored,
    ensures
        state is Start,
        event matches TokenEvent::Loaded(Some(f)) && !((f.received_at, f.lifetime_secs) matches (Some(r), Some(l)) && now >= r + l),
{
}

} // verus!
