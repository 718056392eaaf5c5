# moon_core

Verified pieces of a monorepo task runner, written in Verus:

- `src/projects.rs`: selecting projects by case-insensitive patterns over
  their fields and by whether touched files affect them; reading piped
  lists of touched files.
- `src/process_cache.rs`: a cache of command outputs keyed by a cache key,
  in which a command runs at most once.
- `src/terminal.rs`: the lines the terminal shows for labels, key/value
  entries and sorted lists.
- `src/errors.rs`: the runner, task and code generation errors, their
  messages and diagnostic codes.
- `src/style.rs`, `src/text.rs`: styled text, string ordering, sorting,
  trimming and splitting.

`app/` holds what runs around the library: terminal writes, process
execution, the project graph, piped input, and the error types with their
derived traits.
