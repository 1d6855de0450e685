# rasterkv

The devices and the engine of a log-structured key-value store, as a verified library.

- `src/device/` holds the devices: an in-memory device with a byte budget and injected faults, a
  device without storage, the queue of a device that is run by threads, and file requests below a
  root directory as sequences of single calls.
- `src/engine/` holds what the engine decides: the hub that brings completions to their mailboxes,
  sessions and their versions, deletes and conditional copies, the maintenance actions
  (checkpoints, their release, truncation, growth of the index, compaction) with their workers and
  the scheduler, the counters, and a model of what a disk keeps when the power fails.
- `src/config/`, `src/diagnostics.rs`, `src/reports.rs` and `src/types.rs` hold the configuration,
  the statistics, the reports and the errors.
- `app/` is ordinary Rust: it opens files, starts threads, takes locks and reads clocks. It makes the
  calls that the library asks for, and hands the replies back.

Each action is a state machine. `begin` starts a step; the field `call` says which call is to be
made; `accept` takes the reply and says whether there is another. The spec function `next` says
what every reply does, and the functions whose names start with `law_` state what holds of all of
them.

A request's monitor, a timer, a route, a copy and a delete end by a call that is given the metrics or
the hub. The guards in `app/guards.rs` make that call when such a value is dropped.
