# event_sourcing

A small event-sourcing library whose functions carry proved contracts.

- `src/entities/user.rs` — the user aggregate: `Create` and `ChangeName`
  commands, `Created` and `ChangedName` events, and the laws relating
  handling, applying and replaying.
- `src/handler.rs`, `src/markers.rs` — the roles of aggregates, commands and
  events, as traits whose contracts the aggregates prove.
- `src/process.rs` — the decisions of the process that owns an aggregate:
  running a command to completion, and numbering journaled events.
- `src/eventstore.rs`, `src/eventstore/payload.rs` — the journal: ordering
  stored rows, decoding them into a history, preparing rows to append.
- `src/identifier.rs` — decimal identifiers as journaled.
- `app/` — the program around the library: the tokio task and channels that
  run a process, the SQLite store, and JSON encoding of events.
