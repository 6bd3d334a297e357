# mcp_tunnel

Aggregates several MCP services behind one Streamable HTTP endpoint, with
per-upstream tool filtering, OAuth (PKCE) for HTTP upstreams, Cloudflare
quick tunnels, an audit trail and a terminal UI.

- `src/` — the verified library (Verus): configuration rules and edits,
  tool-name prefixing and routing, the tool listing plan, the OAuth
  callback checks, tunnel URL and download selection, the UI state machine
  (`App::handle_key` returns the outside work to do) and every text the UI
  shows. Public proof functions state the laws (tool filter rule, prefix
  round trip, tab and selection cycles, toggling twice, CSRF acceptance,
  message lifetime, ...).
- `app/` — the program `mt`: command line, config file I/O, upstream
  connections (rmcp), the aggregated server (axum), OAuth flow, tunnels,
  telemetry and the ratatui drawing; it hands plain values to the library
  and performs the actions it returns.
- `tests/` — tests of the library on concrete values.
