# req-engine

A requirements engine with a verb-based lifecycle: cards move only through named verbs
(claim, progress, submit for review, complete review, release, cancel), each checked against
the caller's role. The engine itself makes no model calls; coding agents reach it over MCP
with per-project pair codes, people over a local HTTP API and a desktop window.

## Layout

- `src/` — the verified library (Verus).
  - `domain/` — statuses, roles, the transition rules, the data model.
  - `services/` — the store (`Board`) and everything that changes it: projects, requirements,
    tokens, pair codes, seat presence, demo seed, onboarding prompts, host recognition.
    `services/laws.rs` states the lifecycle's laws over the services' specifications.
  - `http/` — who may call which endpoint, how failures are answered, what is sent back, and
    what the endpoints that change more than one thing do.
  - `mcp/` — the two MCP surfaces (discuss/planner, build/foreman), how a process opens its
    session, tools.
  - `desktop.rs` — the desktop shell's decisions: page messages, close behaviour, the texts it
    injects, the ports it tries, the tray picture, and reading the admin token back from
    `tokens.txt`.
  - `text.rs`, `outside.rs` — string helpers and the few calls into std, `sha2`, `hex`,
    `rand`, `uuid`, `chrono` and `serde_json` that the library relies on, each with the
    contract it is trusted to meet.
- `app/` — the program around the library: the CLI, SQLite storage, the axum server, the
  rmcp stdio servers and the WebView window.
- `tests/` — tests of the library, run against the real outside crates.

Every public function of `src/` states in its `ensures` what it returns or how it changes the
store, and Verus proves it.
