# deadass

Haptic feedback for Deadlock: game events (kills, deaths, assists, respawns,
ability use and readiness, parries, punches) drive toy vibration and
OpenShock requests, each trigger configured by its own rule.

## Layout

- `src/` — the library, verified with Verus. Every function carries a
  contract; the laws of the library are public proof functions (`lemma_*`).
  - `event`, `trigger`, `config`, `shock`: events, trigger keys, the rule
    table and the shocker roster.
  - `monitor`, `poller`, `game`, `offsets`, `schema`, `mem`: turning sampled
    game state into events, and the arithmetic of reading it.
  - `dedup`, `haptics`, `dispatch`, `toys`, `openshock`: deciding what an
    accepted event does and how it is played or sent.
  - `bridge`, `log_tail`, `sender`, `pipeline`, `ui`, `injector`,
    `discovery`, `config_watch`, `updater`, `debug_log`, `commands`: the
    companion's plumbing decisions, status lines and front-end commands.
  - `text`: character-level string handling with full specifications.
- `tests/` — tests of the library on concrete values.
- `app/` — the companion program: sockets, files, HTTP, the toy client and
  the task loops, calling the library for every decision.

Verify with the Verus toolchain; the crate name is `deadass`.
