//! What the terminal UI shows, computed from the state: audit log lines,
//! tool cards, server summaries, tunnel status and layout proportions.

use vstd::prelude::*;
use crate::app::{App, Tab, AddDialogType, cache_index, server_index, find_cache, find_server, lemma_cache_index_bound, lemma_server_index_bound};
use crate::config::{ServerConfig, ToolInfo, ToolCache, UpstreamType, TunnelMode, texts, text_set, contains_text_item};
use crate::server::audit::{AuditLog, AuditDirection};
use crate::text::{chars_of, string_of_range, decimal, decimal_text, two_digits, two_digit_text, join2, join3, owned};
use crate::constants::MCP_PATH;

verus! {

/// `s` cut to at most `max` characters: when longer, its first
/// `max - 3` characters (none if `max < 3`) followed by `...`.
pub open spec fn truncated(s: Seq<char>, max: nat) -> Seq<char> {
    if s.len() > max {
        let keep = if max >= 3 { (max - 3) as int } else { 0 };
        s.subrange(0, keep) + "..."@
    } else {
        s
    }
}

/// Cuts a text to at most `max` characters, marking the cut with `...`.
pub fn truncate_text(s: &str, max: usize) -> (r: String)
    ensures
        r@ == truncated(s@, max as nat),
{
    let cs = chars_of(s);
    if cs.len() > max {
        let keep = max.saturating_sub(3);
        let head = string_of_range(&cs, 0, keep);
        join2(head.as_str(), "...")
    } else {
        owned(s)
    }
}

/// What `serde_json::to_string` gives for a JSON value (compact JSON text;
/// named, not written out).
pub uninterp spec fn json_of(v: serde_json::Value) -> Seq<char>;

/// Calls `serde_json::to_string` on a value. Claims it succeeds (a
/// `Value` holds only string map keys, so its serialization cannot fail)
/// and that the text is `json_of` of the value.
#[verifier::external_body]
pub(crate) fn json_text(value: &serde_json::Value) -> (r: Option<String>)
    ensures
        r is Some,
        r.unwrap()@ == json_of(*value),
{
    serde_json::to_string(value).ok()
}

/// The second of the day (UTC) of a Unix timestamp.
pub open spec fn second_of_day(t: i64) -> int {
    (t as int) % 86400
}

/// `HH:MM:SS` (UTC) of a Unix timestamp.
pub open spec fn clock_text(t: i64) -> Seq<char> {
    let s = second_of_day(t);
    two_digits((s / 3600) as nat) + ":"@ + two_digits(((s % 3600) / 60) as nat) + ":"@ + two_digits((s % 60) as nat)
}

/// The second of the day (UTC) of a Unix timestamp.
pub fn seconds_into_day(t: i64) -> (r: u64)
    ensures
        r == second_of_day(t),
        r < 86400,
{
    if t >= 0 {
        (t % 86400) as u64
    } else {
        let m = (-(t + 1)) % 86400;
        assert((t as int) % 86400 == 86399 - ((-(t + 1)) as int) % 86400) by (nonlinear_arith)
            requires t < 0;
        (86399 - m) as u64
    }
}

/// Writes a Unix timestamp as `HH:MM:SS` (UTC).
pub fn clock(t: i64) -> (r: String)
    ensures
        r@ == clock_text(t),
{
    let s = seconds_into_day(t);
    let h = two_digit_text(s / 3600);
    let m = two_digit_text((s % 3600) / 60);
    let sec = two_digit_text(s % 60);
    let hm = join3(h.as_str(), ":", m.as_str());
    join3(hm.as_str(), ":", sec.as_str())
}

/// The tag of an audit direction.
pub open spec fn direction_tag(d: AuditDirection) -> Seq<char> {
    match d {
        AuditDirection::Call => "[CALL]"@,
        AuditDirection::Response => "[RESP]"@,
        AuditDirection::List => "[LIST]"@,
        AuditDirection::Error => "[ERR]"@,
    }
}

fn direction_text(d: &AuditDirection) -> (r: &'static str)
    ensures
        r@ == direction_tag(*d),
{
    match d {
        AuditDirection::Call => "[CALL]",
        AuditDirection::Response => "[RESP]",
        AuditDirection::List => "[LIST]",
        AuditDirection::Error => "[ERR]",
    }
}

/// The JSON text shown for a value: its serialization, or `<?>`.
pub open spec fn shown_json(text: Option<Seq<char>>) -> Seq<char> {
    match text {
        Some(t) => truncated(t, 30),
        None => truncated("<?>"@, 30),
    }
}

/// JSON texts as plain values.
pub open spec fn json_texts_view(o: Option<Option<String>>) -> Option<Option<Seq<char>>> {
    match o {
        Some(a) => Some(match a { Some(t) => Some(t@), None => None }),
        None => None,
    }
}

/// The tool shown for a record: its name, or `-`.
pub open spec fn tool_shown(log: AuditLog) -> Seq<char> {
    match log.tool { Some(t) => t@, None => "-"@ }
}

/// The audit log line of a record, given the JSON texts of its arguments
/// and result (`None` inside when serialization failed).
pub open spec fn audit_line_text(log: AuditLog, args: Option<Option<Seq<char>>>, result: Option<Option<Seq<char>>>) -> Seq<char> {
    let tool = tool_shown(log);
    let head = "["@ + clock_text(log.timestamp) + "] "@ + direction_tag(log.direction) + " "@ + log.upstream@ + " → "@ + tool;
    let with_args = match args {
        Some(a) => head + " | args: "@ + shown_json(a),
        None => head,
    };
    let with_result = match result {
        Some(r) => with_args + " | result: "@ + shown_json(r),
        None => with_args,
    };
    let err = match log.error { Some(e) => e@, None => Seq::empty() };
    if err.len() == 0 {
        with_result + " | "@ + decimal(log.duration_ms as nat) + "ms"@
    } else {
        with_result + " | ERR: "@ + err
    }
}

fn shown_json_text(text: Option<String>) -> (r: String)
    ensures
        r@ == shown_json(match text { Some(t) => Some(t@), None => None }),
{
    match text {
        Some(t) => truncate_text(t.as_str(), 30),
        None => truncate_text("<?>", 30),
    }
}

/// The audit log line of a record, given the JSON texts of its arguments
/// and result.
pub fn audit_line_with(log: &AuditLog, args: Option<Option<String>>, result: Option<Option<String>>) -> (r: String)
    ensures
        r@ == audit_line_text(*log, json_texts_view(args), json_texts_view(result)),
{
    let tool: &str = match &log.tool { Some(t) => t.as_str(), None => "-" };
    let ts = clock(log.timestamp);
    let head = join3("[", ts.as_str(), "] ");
    let head = join3(head.as_str(), direction_text(&log.direction), " ");
    let head = join3(head.as_str(), log.upstream.as_str(), " → ");
    let head = join2(head.as_str(), tool);
    let ghost gargs = json_texts_view(args);
    let ghost gres = json_texts_view(result);
    let ghost gtool = tool_shown(*log);
    assert(tool@ == gtool);
    let ghost ghead = "["@ + clock_text(log.timestamp) + "] "@ + direction_tag(log.direction) + " "@ + log.upstream@ + " → "@ + gtool;
    assert(head@ == ghead);
    let with_args = match args {
        Some(a) => {
            let shown = shown_json_text(a);
            join3(head.as_str(), " | args: ", shown.as_str())
        },
        None => head,
    };
    let with_result = match result {
        Some(x) => {
            let shown = shown_json_text(x);
            join3(with_args.as_str(), " | result: ", shown.as_str())
        },
        None => with_args,
    };
    let ghost gwa = match gargs { Some(a) => ghead + " | args: "@ + shown_json(a), None => ghead };
    assert(with_args@ == gwa);
    let ghost gwr = match gres { Some(r) => gwa + " | result: "@ + shown_json(r), None => gwa };
    assert(with_result@ == gwr);
    let err: &str = match &log.error { Some(e) => e.as_str(), None => "" };
    proof {
        reveal_strlit("");
        assert(""@ =~= Seq::<char>::empty());
    }
    if err.unicode_len() == 0 {
        let ms = decimal_text(log.duration_ms);
        let tail = join2(" | ", ms.as_str());
        let r = join3(with_result.as_str(), tail.as_str(), "ms");
        assert(r@ =~= with_result@ + " | "@ + ms@ + "ms"@);
        r
    } else {
        join3(with_result.as_str(), " | ERR: ", err)
    }
}

/// The JSON text of an optional value, as the audit line takes it.
pub open spec fn json_view(v: Option<serde_json::Value>) -> Option<Option<Seq<char>>> {
    match v {
        Some(x) => Some(Some(json_of(x))),
        None => None,
    }
}

/// The audit log line of a record, with the JSON texts of its arguments
/// and result.
pub fn audit_line(log: &AuditLog) -> (r: String)
    ensures
        r@ == audit_line_text(*log, json_view(log.args), json_view(log.result)),
{
    let args = match &log.args { Some(v) => Some(json_text(v)), None => None };
    let result = match &log.result { Some(v) => Some(json_text(v)), None => None };
    audit_line_with(log, args, result)
}

/// The line shown when there are no audit records.
pub const NO_AUDIT_LOGS: &'static str = "No audit logs yet. Start the server to see logs.";

/// The records shown in the audit panel, newest first: after skipping
/// `scroll` of them, at most `rows` (positions into the log).
pub open spec fn visible_audit_positions(len: nat, scroll: nat, rows: nat) -> Seq<int> {
    let shown = if scroll >= len { 0 } else if len - scroll < rows { (len - scroll) as nat } else { rows };
    Seq::new(shown, |k: int| len - 1 - scroll - k)
}

/// The title of the audit panel.
pub open spec fn audit_title(len: nat) -> Seq<char> {
    "Audit Log ("@ + decimal(len) + " entries)"@
}

/// The positions of the audit records shown, newest first, in a panel of
/// `height` rows (two are taken by the border).
pub fn audit_view_positions(len: usize, scroll: usize, height: u16) -> (r: Vec<usize>)
    requires
        height >= 2,
    ensures
        r@.map_values(|k: usize| k as int) == visible_audit_positions(len as nat, scroll as nat, (height - 2) as nat),
{
    let rows = (height - 2) as usize;
    let shown = if scroll >= len { 0 } else if len - scroll < rows { len - scroll } else { rows };
    let mut out: Vec<usize> = Vec::new();
    let mut k: usize = 0;
    while k < shown
        invariant
            shown <= len,
            scroll < len || shown == 0,
            shown == (if scroll >= len { 0 } else if len - scroll < rows { (len - scroll) as nat } else { rows as nat }),
            rows == (height - 2) as usize,
            k <= shown,
            out@.map_values(|x: usize| x as int) == visible_audit_positions(len as nat, scroll as nat, rows as nat).subrange(0, k as int),
        decreases shown - k,
    {
        let ghost before = out@.map_values(|x: usize| x as int);
        let ghost vis = visible_audit_positions(len as nat, scroll as nat, rows as nat);
        assert(vis.len() == shown);
        assert(vis[k as int] == len - 1 - scroll - k);
        out.push(len - 1 - scroll - k);
        assert(out@.map_values(|x: usize| x as int) =~= before.push(len - 1 - scroll - k));
        assert(vis.subrange(0, k + 1) =~= vis.subrange(0, k as int).push(vis[k as int]));
        k = k + 1;
    }
    assert(visible_audit_positions(len as nat, scroll as nat, rows as nat).subrange(0, shown as int)
        =~= visible_audit_positions(len as nat, scroll as nat, rows as nat));
    out
}

/// The title of the audit panel: how many records there are.
pub fn audit_panel_title(len: usize) -> (r: String)
    ensures
        r@ == audit_title(len as nat),
{
    let n = decimal_text(len as u64);
    join3("Audit Log (", n.as_str(), " entries)")
}

/// The first line of a tool card: selection marker, border and name.
pub open spec fn card_name_part(name: Seq<char>, selected: bool, disabled: bool) -> Seq<char> {
    (if selected { "▶ "@ } else { "  "@ }) + (if disabled { "│"@ } else { "┃"@ }) + " "@ + name
}

/// The status shown at the right of a tool card.
pub open spec fn card_indicator(disabled: bool) -> Seq<char> {
    if disabled { "  ○ disabled"@ } else { "  ● active"@ }
}

/// The start of a tool card's description line.
pub open spec fn card_desc_prefix(disabled: bool) -> Seq<char> {
    "  "@ + (if disabled { "│"@ } else { "┃"@ }) + " "@
}

/// The spaces between a card's name and its status: what is left of the
/// width once both are laid out, counted in UTF-8 bytes.
pub open spec fn card_padding(width: nat, name_bytes: nat, indicator_bytes: nat) -> nat {
    if name_bytes + indicator_bytes >= width { 0 } else { (width - name_bytes - indicator_bytes) as nat }
}

/// The description line of a tool card.
pub enum DescLine {
    /// Not shown (folded view).
    Hidden,
    /// The tool has no description.
    Missing,
    /// The description, cut to the width.
    Text(String),
}

/// One tool in the tools panel.
pub struct ToolCard {
    pub selected: bool,
    pub disabled: bool,
    pub name_part: String,
    pub padding: usize,
    pub indicator: String,
    pub desc_prefix: String,
    pub description: DescLine,
}

/// The number of UTF-8 bytes of a text, as `str::len` reports it.
pub open spec fn byte_len(s: Seq<char>) -> nat {
    vstd::utf8::encode_utf8(s).len()
}

/// A card is the rendering of `tool` at width `width`.
pub open spec fn card_matches(c: ToolCard, tool: ToolInfo, selected: bool, disabled: bool, width: u16, folded: bool) -> bool {
    &&& c.selected == selected
    &&& c.disabled == disabled
    &&& c.name_part@ == card_name_part(tool.name@, selected, disabled)
    &&& c.indicator@ == card_indicator(disabled)
    &&& c.desc_prefix@ == card_desc_prefix(disabled)
    &&& c.padding == card_padding(width as nat,
            (byte_len(c.name_part@) as usize) as nat, (byte_len(c.indicator@) as usize) as nat)
    &&& if folded {
        c.description is Hidden
    } else if tool.description@.len() == 0 {
        c.description is Missing
    } else {
        c.description matches DescLine::Text(t)
            && t@ == truncated(tool.description@, (if width >= 4 { width - 4 } else { 0 }) as nat)
    }
}

/// Lays out one tool card at width `width` (the panel's inner width).
pub fn tool_card(tool: &ToolInfo, selected: bool, disabled: bool, width: u16, folded: bool) -> (r: ToolCard)
    ensures
        card_matches(r, *tool, selected, disabled, width, folded),
{
    let marker = if selected { "▶ " } else { "  " };
    let border = if disabled { "│" } else { "┃" };
    let name_part = join3(marker, border, " ");
    let name_part = join2(name_part.as_str(), tool.name.as_str());
    let indicator = owned(if disabled { "  ○ disabled" } else { "  ● active" });
    let desc_prefix = join3("  ", border, " ");
    let a = name_part.as_str().len();
    let b = indicator.as_str().len();
    let w = width as usize;
    let padding = if a >= w { 0 } else { (w - a).saturating_sub(b) };
    let description = if folded {
        DescLine::Hidden
    } else if tool.description.unicode_len() == 0 {
        DescLine::Missing
    } else {
        let max_desc = w.saturating_sub(4);
        DescLine::Text(truncate_text(tool.description.as_str(), max_desc))
    };
    ToolCard { selected, disabled, name_part, padding, indicator, desc_prefix, description }
}

/// What the tools panel shows.
pub enum ToolsPanel {
    /// A note instead of cards.
    Note { title: String, text: &'static str },
    /// The tool cards in view, under a summary line.
    Cards { title: String, summary: String, cards: Vec<ToolCard> },
}

/// The note when the shown server has a cache entry without tools.
pub const NO_TOOLS_NOTE: &'static str = "No tools discovered for this server.\nPress 'o' to authenticate and discover tools.";

/// The note when the shown server has no cache entry yet.
pub const LOADING_TOOLS_NOTE: &'static str = "Loading tools...\nIf this persists, press 'o' to authenticate.";

/// The name of the server whose tools are shown (empty when none).
pub open spec fn shown_server(a: App) -> Seq<char> {
    match a.tools_for_server { Some(n) => n@, None => Seq::empty() }
}

/// Whether the shown server's first configuration disables `tool`.
pub open spec fn shown_disables(a: App, tool: Seq<char>) -> bool {
    match server_index(a.config.servers@, shown_server(a)) {
        Some(i) => a.config.servers@[i].disabled_set().contains(tool),
        None => false,
    }
}

/// How many of `tools` the shown server disables.
pub open spec fn disabled_count(a: App, tools: Seq<ToolInfo>) -> nat
    decreases tools.len(),
{
    if tools.len() == 0 {
        0
    } else {
        disabled_count(a, tools.drop_last()) + (if shown_disables(a, tools.last().name@) { 1nat } else { 0nat })
    }
}

/// How many cards fit in a panel of inner height `h`.
pub open spec fn cards_fitting(h: nat, folded: bool) -> nat {
    let lines_per_tool: nat = if folded { 2 } else { 3 };
    (if h >= 2 { (h - 2) as nat } else { 0 }) / lines_per_tool
}

/// The first card in view, so that the selected card stays visible.
pub open spec fn first_in_view(selected: nat, fitting: nat) -> nat {
    if fitting == 0 {
        0
    } else if selected >= fitting {
        if selected >= fitting - 1 { (selected - (fitting - 1)) as nat } else { 0 }
    } else {
        0
    }
}

/// The summary line of the tools panel.
pub open spec fn tools_summary(total: nat, disabled: nat, folded: bool) -> Seq<char> {
    "  "@ + (if folded { "▸"@ } else { "▾"@ }) + " "@ + decimal(total) + " tools · "@ + decimal((total - disabled) as nat)
        + " active · "@ + decimal(disabled) + " disabled"@
}

/// The title of the tools panel.
pub open spec fn tools_title(server: Seq<char>, folded: bool) -> Seq<char> {
    "Tools — "@ + server + (if folded { " [folded]"@ } else { Seq::empty() })
}

/// The inner size of a panel with a one-cell border.
pub open spec fn inner(x: u16) -> nat {
    if x >= 2 { (x - 2) as nat } else { 0 }
}

/// The tools panel is what the state shows at the given size.
pub open spec fn tools_panel_matches(p: ToolsPanel, a: App, width: u16, height: u16) -> bool {
    let name = shown_server(a);
    match cache_index(a.tool_cache@, name) {
        Some(c) if a.tool_cache@[c].tools@.len() > 0 => {
            let tools = a.tool_cache@[c].tools@;
            let fit = cards_fitting(inner(height), a.tools_folded);
            let first = first_in_view(a.selected_tool as nat, fit);
            let shown: nat = if first >= tools.len() { 0 } else if tools.len() - first < fit { (tools.len() - first) as nat } else { fit };
            p matches ToolsPanel::Cards { title, summary, cards } && {
                &&& title@ == tools_title(name, a.tools_folded)
                &&& summary@ == tools_summary(tools.len(), disabled_count(a, tools), a.tools_folded)
                &&& cards@.len() == shown
                &&& forall|k: int| #![trigger cards@[k]] 0 <= k < shown ==> card_matches(cards@[k], tools[first + k],
                        first + k == a.selected_tool, shown_disables(a, tools[first + k].name@),
                        inner(width) as u16, a.tools_folded)
            }
        },
        other => p matches ToolsPanel::Note { title, text } && {
            &&& title@ == "Tools — "@ + name
            &&& text@ == (if other is Some { NO_TOOLS_NOTE@ } else { LOADING_TOOLS_NOTE@ })
        },
    }
}

fn count_disabled(a: &App, tools: &Vec<ToolInfo>, server: Option<usize>) -> (r: usize)
    requires
        server matches Some(i) ==> server_index(a.config.servers@, shown_server(*a)) == Some(i as int),
            server is None ==> server_index(a.config.servers@, shown_server(*a)) is None,
        server matches Some(i) ==> i < a.config.servers@.len(),
    ensures
        r == disabled_count(*a, tools@),
        r <= tools@.len(),
{
    let n = tools.len();
    let mut count: usize = 0;
    let mut k: usize = 0;
    while k < n
        invariant
            n == tools@.len(),
            k <= n,
            count <= k,
            server matches Some(i) ==> server_index(a.config.servers@, shown_server(*a)) == Some(i as int),
            server is None ==> server_index(a.config.servers@, shown_server(*a)) is None,
            server matches Some(i) ==> i < a.config.servers@.len(),
            count == disabled_count(*a, tools@.subrange(0, k as int)),
        decreases n - k,
    {
        let hit = match server {
            Some(i) => contains_text_item(&a.config.servers[i].disabled_tools, tools[k].name.as_str()),
            None => false,
        };
        proof {
            let next = tools@.subrange(0, k + 1);
            assert(next.drop_last() =~= tools@.subrange(0, k as int));
            assert(next.last() == tools@[k as int]);
            assert(hit == shown_disables(*a, tools@[k as int].name@));
        }
        if hit {
            count = count + 1;
        }
        k = k + 1;
    }
    assert(tools@.subrange(0, n as int) =~= tools@);
    count
}

/// What the tools panel shows for the state, in a panel of the given
/// outer size.
pub fn tools_panel(a: &App, width: u16, height: u16) -> (r: ToolsPanel)
    ensures
        tools_panel_matches(r, *a, width, height),
{
    let name = match &a.tools_for_server { Some(n) => n.clone(), None => String::new() };
    let c = find_cache(&a.tool_cache, &name);
    proof {
        lemma_cache_index_bound(a.tool_cache@, name@);
    }
    let title_base = join2("Tools — ", name.as_str());
    let has_tools = match c { Some(i) => a.tool_cache[i].tools.len() > 0, None => false };
    if !has_tools {
        let text = if c.is_some() { NO_TOOLS_NOTE } else { LOADING_TOOLS_NOTE };
        return ToolsPanel::Note { title: title_base, text };
    }
    let ci = c.unwrap();
    let tools = &a.tool_cache[ci].tools;
    let si = find_server(&a.config.servers, &name);
    proof {
        lemma_server_index_bound(a.config.servers@, name@);
    }
    let disabled = count_disabled(a, tools, si);
    let total = tools.len();
    let folded = a.tools_folded;
    let inner_w = width.saturating_sub(2);
    let inner_h = height.saturating_sub(2) as usize;
    let lines_per_tool: usize = if folded { 2 } else { 3 };
    let fit = inner_h.saturating_sub(2) / lines_per_tool;
    let first = if fit == 0 { 0 } else if a.selected_tool >= fit { a.selected_tool - (fit - 1) } else { 0 };
    let shown = if first >= total { 0 } else if total - first < fit { total - first } else { fit };
    let mut cards: Vec<ToolCard> = Vec::new();
    let mut k: usize = 0;
    while k < shown
        invariant
            k <= shown,
            shown <= total || shown == 0,
            first + shown <= total || shown == 0,
            total == tools@.len(),
            cards@.len() == k,
            forall|j: int| #![trigger cards@[j]] 0 <= j < k ==> card_matches(cards@[j], tools@[first + j],
                first + j == a.selected_tool, shown_disables(*a, tools@[first + j].name@),
                inner_w, folded),
            si matches Some(i) ==> server_index(a.config.servers@, shown_server(*a)) == Some(i as int),
            si is None ==> server_index(a.config.servers@, shown_server(*a)) is None,
            si matches Some(i) ==> i < a.config.servers@.len(),
            folded == a.tools_folded,
        decreases shown - k,
    {
        let idx = first + k;
        let tool = &tools[idx];
        let is_disabled = match si {
            Some(i) => contains_text_item(&a.config.servers[i].disabled_tools, tool.name.as_str()),
            None => false,
        };
        assert(is_disabled == shown_disables(*a, tools@[idx as int].name@));
        let card = tool_card(tool, idx == a.selected_tool, is_disabled, inner_w, folded);
        let ghost before = cards@;
        cards.push(card);
        assert forall|j: int| #![trigger cards@[j]] 0 <= j < k + 1 implies card_matches(cards@[j], tools@[first + j],
                first + j == a.selected_tool, shown_disables(*a, tools@[first + j].name@),
                inner_w, folded) by {
            if j < k {
                assert(cards@[j] == before[j]);
            }
        }
        k = k + 1;
    }
    let total_text = decimal_text(total as u64);
    let active_text = decimal_text((total - disabled) as u64);
    let disabled_text = decimal_text(disabled as u64);
    let summary = join3("  ", if folded { "▸" } else { "▾" }, " ");
    let summary = join3(summary.as_str(), total_text.as_str(), " tools · ");
    let summary = join3(summary.as_str(), active_text.as_str(), " active · ");
    let summary = join3(summary.as_str(), disabled_text.as_str(), " disabled");
    let title = join2(title_base.as_str(), if folded { " [folded]" } else { "" });
    proof {
        reveal_strlit("");
        assert(""@ =~= Seq::<char>::empty());
    }
    ToolsPanel::Cards { title, summary, cards }
}

/// The texts joined with single spaces.
pub open spec fn space_joined(items: Seq<Seq<char>>) -> Seq<char>
    decreases items.len(),
{
    if items.len() == 0 {
        Seq::empty()
    } else if items.len() == 1 {
        items[0]
    } else {
        space_joined(items.drop_last()) + " "@ + items.last()
    }
}

/// Joins texts with single spaces.
pub fn join_spaced(items: &Vec<String>) -> (r: String)
    ensures
        r@ == space_joined(texts(items@)),
{
    let n = items.len();
    let mut r = String::new();
    let mut i: usize = 0;
    proof {
        reveal_strlit(" ");
    }
    while i < n
        invariant
            n == items@.len(),
            i <= n,
            r@ == space_joined(texts(items@).subrange(0, i as int)),
        decreases n - i,
    {
        let ghost pre = texts(items@).subrange(0, i as int);
        let ghost next = texts(items@).subrange(0, i + 1);
        assert(next.drop_last() =~= pre);
        assert(next.last() == items@[i as int]@);
        if i == 0 {
            r = items[0].clone();
            assert(next =~= seq![items@[0]@]);
        } else {
            r = join3(r.as_str(), " ", items[i].as_str());
        }
        i = i + 1;
    }
    assert(texts(items@).subrange(0, n as int) =~= texts(items@));
    r
}

/// How an upstream is reached, as shown: the URL, or the command with its
/// arguments.
pub open spec fn target_text(ty: UpstreamType) -> Seq<char> {
    match ty {
        UpstreamType::Http { url } => url@,
        UpstreamType::Stdio { command, args } => if args@.len() == 0 {
            command@
        } else {
            command@ + " "@ + space_joined(texts(args@))
        },
    }
}

/// How an upstream is reached, as shown.
pub fn target_line(ty: &UpstreamType) -> (r: String)
    ensures
        r@ == target_text(*ty),
{
    match ty {
        UpstreamType::Http { url } => url.clone(),
        UpstreamType::Stdio { command, args } => {
            if args.len() == 0 {
                command.clone()
            } else {
                let joined = join_spaced(args);
                join3(command.as_str(), " ", joined.as_str())
            }
        },
    }
}

/// The tool summary of a server: how many tools its cache holds, and how
/// many of those are active and disabled.
pub open spec fn server_tool_summary(count: nat, disabled: nat) -> Seq<char> {
    if count == 0 {
        "No tools discovered"@
    } else {
        decimal(count) + " tools · "@ + decimal((count - disabled) as nat) + " active · "@ + decimal(disabled) + " disabled"@
    }
}

/// The tool summary of a server, from the size of its cache entry and of
/// its disabled list.
pub fn server_tool_summary_line(count: usize, disabled: usize) -> (r: String)
    requires
        count > 0 ==> disabled <= count,
    ensures
        r@ == server_tool_summary(count as nat, disabled as nat),
{
    if count == 0 {
        return owned("No tools discovered");
    }
    let c = decimal_text(count as u64);
    let a = decimal_text((count - disabled) as u64);
    let d = decimal_text(disabled as u64);
    let r = join3(c.as_str(), " tools · ", a.as_str());
    let r = join3(r.as_str(), " active · ", d.as_str());
    join2(r.as_str(), " disabled")
}

/// How many of `tools` server `s` disables.
pub open spec fn disabled_by(s: ServerConfig, tools: Seq<ToolInfo>) -> nat
    decreases tools.len(),
{
    if tools.len() == 0 {
        0
    } else {
        disabled_by(s, tools.drop_last()) + (if s.disabled_set().contains(tools.last().name@) { 1nat } else { 0nat })
    }
}

/// The tool summary of a server from its cached tools: how many there
/// are, how many of them the server leaves active, and how many it
/// disables (names in its disabled list that are not cached do not count).
pub fn server_tools_summary(server: &ServerConfig, tools: &Vec<ToolInfo>) -> (r: String)
    ensures
        r@ == server_tool_summary(tools@.len(), disabled_by(*server, tools@)),
{
    let n = tools.len();
    let mut count: usize = 0;
    let mut k: usize = 0;
    while k < n
        invariant
            n == tools@.len(),
            k <= n,
            count <= k,
            count == disabled_by(*server, tools@.subrange(0, k as int)),
        decreases n - k,
    {
        let hit = contains_text_item(&server.disabled_tools, tools[k].name.as_str());
        proof {
            let next = tools@.subrange(0, k + 1);
            assert(next.drop_last() =~= tools@.subrange(0, k as int));
            assert(next.last() == tools@[k as int]);
        }
        if hit {
            count = count + 1;
        }
        k = k + 1;
    }
    assert(tools@.subrange(0, n as int) =~= tools@);
    server_tool_summary_line(n, count)
}

/// How many tool names the server detail previews.
pub const PREVIEW_TOOLS: usize = 5;

/// The line after the preview when the cache holds more tools.
pub open spec fn more_tools_text(remaining: nat) -> Seq<char> {
    "    ... and "@ + decimal(remaining) + " more"@
}

/// The line after the preview of a server's tools, when not all are shown.
pub fn more_tools_line(count: usize) -> (r: Option<String>)
    ensures
        count > PREVIEW_TOOLS ==> (r matches Some(t) && t@ == more_tools_text((count - PREVIEW_TOOLS) as nat)),
        count <= PREVIEW_TOOLS ==> r is None,
{
    if count > PREVIEW_TOOLS {
        let n = decimal_text((count - PREVIEW_TOOLS) as u64);
        Some(join3("    ... and ", n.as_str(), " more"))
    } else {
        None
    }
}

/// A line of the server list.
pub open spec fn server_list_text(name: Seq<char>, is_selected: bool) -> Seq<char> {
    (if is_selected { "> "@ } else { "  "@ }) + name
}

/// A line of the server list: a marker on the selected server, then its
/// name.
pub fn server_list_line(name: &str, is_selected: bool) -> (r: String)
    ensures
        r@ == server_list_text(name@, is_selected),
{
    join2(if is_selected { "> " } else { "  " }, name)
}

/// A line of the tool list: a check box, the name, and the first fifty
/// characters of the description (with `...` when its UTF-8 form is
/// longer than fifty bytes).
pub open spec fn tool_list_text(tool: ToolInfo) -> Seq<char> {
    let icon = if tool.enabled { "[x]"@ } else { "[ ]"@ };
    let d = tool.description@;
    let desc = if d.len() == 0 {
        Seq::empty()
    } else {
        let brief = if d.len() > 50 { d.subrange(0, 50) } else { d };
        if byte_len(d) > 50 { " - "@ + brief + "..."@ } else { " - "@ + brief }
    };
    icon + " "@ + tool.name@ + desc
}

/// A line of the tool list.
pub fn tool_list_line(tool: &ToolInfo) -> (r: String)
    requires
        byte_len(tool.description@) <= usize::MAX,
    ensures
        r@ == tool_list_text(*tool),
{
    let icon = if tool.enabled { "[x]" } else { "[ ]" };
    let head = join3(icon, " ", tool.name.as_str());
    let cs = chars_of(tool.description.as_str());
    if cs.len() == 0 {
        proof {
            reveal_strlit("");
        }
        assert(head@ + Seq::<char>::empty() =~= head@);
        return head;
    }
    let keep = if cs.len() > 50 { 50 } else { cs.len() };
    let brief = string_of_range(&cs, 0, keep);
    assert(cs@.len() <= 50 ==> cs@.subrange(0, keep as int) =~= cs@);
    let desc = join2(" - ", brief.as_str());
    let r = if tool.description.as_str().len() > 50 {
        join3(head.as_str(), desc.as_str(), "...")
    } else {
        join2(head.as_str(), desc.as_str())
    };
    assert(r@ =~= tool_list_text(*tool));
    r
}

/// The widths, in percent, of the margins and middle of a centered box
/// that takes `percent` of its parent.
pub fn centered_percentages(percent: u16) -> (r: (u16, u16, u16))
    requires
        percent <= 100,
    ensures
        r.0 == (100 - percent) / 2,
        r.1 == percent,
        r.2 == (100 - percent) / 2,
{
    let margin = (100 - percent) / 2;
    (margin, percent, margin)
}

/// The key help shown at the bottom for the current view.
pub open spec fn help_for(tab: Tab) -> Seq<char> {
    match tab {
        Tab::Servers => "q:quit | Tab:switch | ↑↓:nav | Enter:tools | a:add | d:delete | s:serve | o:OAuth login | O:clear OAuth"@,
        Tab::Tools => "q:quit | Tab:switch | ↑↓:nav | Space:toggle | Esc:back"@,
        Tab::Tunnel => "q:quit | Tab:switch | t:toggle | r:named tunnel ref"@,
        Tab::AuditLog => "q:quit | Tab:switch | ↑↓:scroll | c:clear"@,
    }
}

/// The key help shown at the bottom for the current tab.
pub fn help_text(a: &App) -> (r: &'static str)
    ensures
        r@ == help_for(a.current_tab),
{
    match a.current_tab {
        Tab::Servers => "q:quit | Tab:switch | ↑↓:nav | Enter:tools | a:add | d:delete | s:serve | o:OAuth login | O:clear OAuth",
        Tab::Tools => "q:quit | Tab:switch | ↑↓:nav | Space:toggle | Esc:back",
        Tab::Tunnel => "q:quit | Tab:switch | t:toggle | r:named tunnel ref",
        Tab::AuditLog => "q:quit | Tab:switch | ↑↓:scroll | c:clear",
    }
}

/// How the tunnel's URL is shown: live (tunnel and server running),
/// waiting for the server, or off.
pub enum UrlState {
    Live,
    NoServer,
    Off,
}

/// What the tunnel status card shows.
pub struct TunnelStatus {
    pub running: bool,
    pub status_label: &'static str,
    pub mode_label: &'static str,
    pub serve_label: &'static str,
    pub url: String,
    pub url_state: UrlState,
    pub hints: &'static str,
}

/// The URL shown on the tunnel card: the public URL with the MCP path, or
/// a note that there is none.
pub open spec fn tunnel_url_text(url: Option<String>) -> Seq<char> {
    match url {
        Some(u) => u@ + MCP_PATH@,
        None => "Not available"@,
    }
}

/// What the tunnel status card shows for the state.
pub fn tunnel_status(a: &App) -> (r: TunnelStatus)
    ensures
        r.running == a.quick_tunnel_running,
        r.status_label@ == (if a.quick_tunnel_running { "Running"@ } else { "Stopped"@ }),
        r.mode_label@ == (match a.config.tunnel.mode { TunnelMode::Disabled => "Disabled"@, TunnelMode::Quick => "Quick (TryCloudflare)"@ }),
        r.serve_label@ == (if a.serve_running { "Running"@ } else { "Stopped"@ }),
        r.url@ == tunnel_url_text(a.tunnel_url),
        r.url_state == (if a.quick_tunnel_running && a.serve_running { UrlState::Live }
            else if a.quick_tunnel_running { UrlState::NoServer } else { UrlState::Off }),
        r.hints@ == (if a.quick_tunnel_running {
            "  'c' = copy URL  |  'o' = open browser  |  't' = stop  |  'e' = edit bind  |  'C' = copy token"@
        } else {
            "  't' = start tunnel  |  'e' = edit bind address  |  'C' = copy token"@
        }),
{
    let running = a.quick_tunnel_running;
    let url = match &a.tunnel_url {
        Some(u) => join2(u.as_str(), MCP_PATH),
        None => owned("Not available"),
    };
    TunnelStatus {
        running,
        status_label: if running { "Running" } else { "Stopped" },
        mode_label: match a.config.tunnel.mode { TunnelMode::Disabled => "Disabled", TunnelMode::Quick => "Quick (TryCloudflare)" },
        serve_label: if a.serve_running { "Running" } else { "Stopped" },
        url,
        url_state: if running && a.serve_running { UrlState::Live } else if running { UrlState::NoServer } else { UrlState::Off },
        hints: if running {
            "  'c' = copy URL  |  'o' = open browser  |  't' = stop  |  'e' = edit bind  |  'C' = copy token"
        } else {
            "  't' = start tunnel  |  'e' = edit bind address  |  'C' = copy token"
        },
    }
}

/// The MCP endpoint of the local server, as shown on the tunnel panel.
pub fn local_endpoint(a: &App) -> (r: String)
    ensures
        r@ == "http://"@ + a.config.tunnel.bind_addr@ + MCP_PATH@,
{
    let base = a.config.tunnel.base_url();
    join2(base.as_str(), MCP_PATH)
}

/// The title and text of the add/edit server dialog.
pub struct DialogView {
    pub title: &'static str,
    pub content: String,
}

/// The dialog field at `i`, or empty when there is none.
pub open spec fn dialog_field(fields: Seq<String>, i: int) -> Seq<char> {
    if 0 <= i < fields.len() { fields[i]@ } else { Seq::empty() }
}

/// A dialog line, with `" <--"` after it when it has the focus.
pub open spec fn focus_marked(line: Seq<char>, focused: bool) -> Seq<char> {
    if focused { line + " <--"@ } else { line }
}

pub open spec fn dialog_title(edit: bool, kind: AddDialogType) -> Seq<char> {
    match (edit, kind) {
        (true, AddDialogType::Http) => "Edit HTTP Server"@,
        (true, AddDialogType::Stdio) => "Edit stdio Server"@,
        (false, AddDialogType::Http) => "Add HTTP Server"@,
        (false, AddDialogType::Stdio) => "Add stdio Server"@,
    }
}

pub open spec fn dialog_hint(edit: bool) -> Seq<char> {
    if edit {
        "Enter: confirm | Esc: cancel | Tab: next field"@
    } else {
        "Enter: confirm | Esc: cancel | Tab: next field / switch type"@
    }
}

pub open spec fn dialog_type_label(kind: AddDialogType) -> Seq<char> {
    match kind {
        AddDialogType::Http => "Type: HTTP"@,
        AddDialogType::Stdio => "Type: stdio"@,
    }
}

pub open spec fn dialog_value_label(kind: AddDialogType) -> Seq<char> {
    match kind {
        AddDialogType::Http => "URL:"@,
        AddDialogType::Stdio => "Command:"@,
    }
}

/// The dialog's text: the type, the name line, the value line and the
/// key hint, the line with the focus marked.
pub open spec fn dialog_content(a: App) -> Seq<char> {
    let name_line = focus_marked("Name: "@ + dialog_field(a.add_dialog_fields@, 0), a.add_dialog_focus == 0);
    let value_line = focus_marked(
        dialog_value_label(a.add_dialog_type) + " "@ + dialog_field(a.add_dialog_fields@, 1),
        a.add_dialog_focus == 1,
    );
    dialog_type_label(a.add_dialog_type) + "\n\n"@ + name_line + "\n"@ + value_line + "\n\n"@
        + dialog_hint(a.is_edit_mode)
}

fn dialog_field_text(fields: &Vec<String>, i: usize) -> (r: &str)
    ensures
        r@ == dialog_field(fields@, i as int),
{
    if i < fields.len() {
        fields[i].as_str()
    } else {
        proof {
            reveal_strlit("");
        }
        ""
    }
}

/// What the add/edit server dialog shows for the state.
pub fn dialog_view(a: &App) -> (r: DialogView)
    ensures
        r.title@ == dialog_title(a.is_edit_mode, a.add_dialog_type),
        r.content@ == dialog_content(*a),
{
    let title = match (a.is_edit_mode, &a.add_dialog_type) {
        (true, AddDialogType::Http) => "Edit HTTP Server",
        (true, AddDialogType::Stdio) => "Edit stdio Server",
        (false, AddDialogType::Http) => "Add HTTP Server",
        (false, AddDialogType::Stdio) => "Add stdio Server",
    };
    let hint = if a.is_edit_mode {
        "Enter: confirm | Esc: cancel | Tab: next field"
    } else {
        "Enter: confirm | Esc: cancel | Tab: next field / switch type"
    };
    let (type_label, value_label) = match &a.add_dialog_type {
        AddDialogType::Http => ("Type: HTTP", "URL:"),
        AddDialogType::Stdio => ("Type: stdio", "Command:"),
    };
    let name_field = join2("Name: ", dialog_field_text(&a.add_dialog_fields, 0));
    let name_line = if a.add_dialog_focus == 0 { join2(name_field.as_str(), " <--") } else { name_field };
    let value_field = join3(value_label, " ", dialog_field_text(&a.add_dialog_fields, 1));
    let value_line = if a.add_dialog_focus == 1 { join2(value_field.as_str(), " <--") } else { value_field };
    let head = join3(type_label, "\n\n", name_line.as_str());
    let middle = join3(head.as_str(), "\n", value_line.as_str());
    let content = join3(middle.as_str(), "\n\n", hint);
    proof {
        assert(content@ =~= dialog_content(*a));
    }
    DialogView { title, content }
}

} // verus!
