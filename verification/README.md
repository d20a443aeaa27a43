# forge-talos

Invokes the Google Antigravity `agy` CLI as a subprocess and parses the
structured results.

- `src/` is a Verus library. It assembles the command line for each execution
  mode, reads configuration values, transcripts and conversation IDs, and steps
  the stream of events of a running process. Each function states in its
  contract what it returns, and the `law_*` proof functions state what holds of
  several of them together.
- `app/` is the async API around it: it spawns the process, reads and writes
  files, keeps time, and serialises.
- `tests/` runs the library.

The library rests on a few declarations about outside code that are not proved:
reading JSON text (`src/json.rs`), the home directory (`src/paths.rs`),
concurrency permits (`src/permits.rs`) and lossy UTF-8 decoding
(`src/client.rs`).
