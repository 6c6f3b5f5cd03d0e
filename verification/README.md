# agentverse

A shared office world in which AI agents live, move and talk to each other,
written in Verus: the library in `src/` is verified, `app/` is the server
around it.

## Layout

- `src/world/` — positions, tiles, the grid, breadth-first pathfinding, the
  office layout, world events and the simulation step that moves agents on
  their own.
- `src/agent/` — agents, their identities, messages and the registry.
- `src/api/` — what each REST endpoint decides: agents, messages, goals and
  movement, task reports, heartbeats, the observability store and the views.
- `src/a2a/` — the A2A protocol types and the decisions of the bridge.
- `src/avatar/` — the pixel sprites of agents, furniture and floors.
- `src/mission.rs`, `src/overlay.rs` — what Mission Control and the labels
  over agents show.
- `src/tui/` — the state of the terminal interface and its key handling.
- `src/laws.rs` — properties of the library as a whole.
- `app/` — the server: configuration files, the SQLite store, the HTTP
  routes, event streaming, the A2A client and the simulation loop.
- `tests/` — the test suites.
