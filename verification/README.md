# flint

The logic of Flint, a local-AI desktop app for macOS, as a library verified with Verus,
and the app layer around it.

Flint probes the machine, recommends one model for its RAM tier (the cookbook),
downloads it with a resumable, sha256-checked transfer, and offers a chat and, on
machines of 32 GB or more that passed a capability smoke test, an agent mode driven
through opencode, with a permission prompt for every action and a pre-run snapshot of
the workspace.

## Layout

- `src/` — the library, verified by Verus: what each public function returns or changes
  is stated in its contract.
  - `text`, `json` — text utilities, and JSON read through `serde_json` behind trusted
    wrappers whose results are named.
  - `types`, `error` — the values passed around and the error vocabulary.
  - `config` — the data directory `~/.flint/` and every location under it.
  - `cookbook`, `probe`, `smoke` — the tier table, the probe's arithmetic, the agent gate.
  - `engine` — the engine's JSON replies and its NDJSON streams (pull progress, chat).
  - `agent` — opencode's server-sent event stream: frames, events, the run's state.
  - `download` — `.part` files, HTTP Range answers, progress, and the sha256 verdict.
  - `snapshot` — naming of snapshot repositories and eviction of old ones.
  - `agent_run`, `commands` — the app's state machines: agent runs, install, chat.
- `app/` — ordinary Rust around the library: HTTP (`reqwest`), processes and timers
  (`tokio`), git snapshots (`git2`), `sysctl` (`libc`), and the JSON records on disk.
- `tests/` — tests of the library.

Laws stated and proved as proof functions in their modules: a reply equals its deltas;
a stream's outcome does not depend on where it is cut into chunks (NDJSON lines and SSE
frames alike); the cookbook is complete; progress stays within 100%; a download restarts
at most once; the bytes a digest is fed piece by piece are the pieces joined in order.
