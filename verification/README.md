# latch

`latch` is a project-scoped coordination ledger for agents that share a
workspace: path claims with containment conflicts and expiry, handoff
tasks, notes and hazards, decisions, versioned contracts, and an
append-only event log that every mutation writes to.

The library in `src/` is verified with Verus. Each command is a function
from the ledger state (and the instant and fresh identifiers it draws) to
the next state and an answer, with its behaviour stated exactly in its
contract; `src/laws.rs` proves what holds across commands (one event per
mutation, append-only decisions and contracts, forward-only task
statuses, the claim conflict rule, and more).

Layout:

- `src/model.rs` – the records and their views; `src/journal.rs` – events.
- `src/claims.rs`, `src/tasks.rs`, `src/notes.rs`, `src/decisions.rs`,
  `src/contracts.rs`, `src/events.rs` – the commands of each entity.
- `src/context.rs` – the `status` and `context` pictures and their text.
- `src/cli.rs`, `src/commands.rs`, `src/reply.rs` – the command line and
  running a command; `src/workspace.rs` – ledger location and project id.
- `src/text.rs`, `src/ranking.rs`, `src/rows.rs`, `src/clock.rs` – text,
  ordering, row selection, instants and time-to-live parsing.
- `app/` – the executable: argument parsing, the SQLite file, the
  environment, and JSON or text output.
