# kacf

KACF is an autonomous coding agent with a web console: given a goal, it asks
a chat model for patches, applies them with git, runs the project's
evaluation script, analyses failures and iterates until the goal is met.

This crate is written in Verus. Its library (`src/`) holds the agent's and
the console's logic with machine-checked contracts; `app/` is the program
around it (HTTP server, git and process calls, file storage, the model
client).

## Layout

- `src/text.rs` — string primitives with specifications (trim, lines,
  UTF-8 byte lengths, decimal printing, searching).
- `src/chat.rs`, `src/history.rs`, `src/patch.rs`, `src/protocol.rs`,
  `src/prompts.rs`, `src/session.rs`, `src/failure.rs`, `src/runner.rs` —
  the coding session: conversation history trimming, JSON extraction, patch
  checks, failure digests, repair prompts, auto-revert decisions, retry
  messages and the agent's reaction to console requests; `src/session_loop.rs`
  is the session itself as a step function from state and event to next
  state and action.
- `src/accounts.rs`, `src/account_actions.rs`, `src/auth.rs` — accounts and
  login sessions: lookups, upserts, bans, deletion, session pruning, login
  outcomes and the administrator's actions.
- `src/events.rs`, `src/analytics.rs`, `src/metrics.rs`, `src/debug_log.rs`,
  `src/buffers.rs` — the console's event buffer, runtime statistics, release
  gate and dashboard figures.
- `src/ui_cache.rs`, `src/paths.rs`, `src/slug.rs`, `src/console.rs`,
  `src/languages.rs`, `src/starter.rs` — projects, workspaces under a user's
  root, start and resume requests, language packs and starter blueprints.
- `src/vm*.rs`, `src/dispatch.rs`, `src/self_debug.rs`, `src/strategy.rs`,
  `src/debug_packet.rs` — the virtual-machine task queue, its scheduler,
  health scan, self-debug runs and repair strategies; `src/vm_handlers.rs`
  holds the decisions of the clone, start, command and self-debug-plan
  requests.
- `src/api_key.rs` — API-key masking and at-rest encryption.
- `tests/` — executable tests of the library.
- `app/` — `main`, the HTTP routes for sessions, projects, language packs,
  accounts and administration, the agent loop that performs the session's
  actions, and file storage. The VM console, e-mail codes, account settings
  and client-log routes are not served by `app/`; their decisions stand in
  the library.
