# harness

The decision core of an agent runtime, verified with Verus: how tool calls
are dispatched, confirmed, approved and answered; how permissions pass from
a parent agent to a child; how user input is routed to waiting tasks; how
short-term memory is grouped and compressed; how sub-task batches, shell
sessions, scheduled tasks and skill updates are planned and settled.

- `src/` is the verified library. Each module states its behaviour in
  `requires`/`ensures` contracts over `Seq`, `Map` and spec functions, and
  the laws that relate several operations are public proof functions
  (`lemma_*`). Calls into `uuid`, `chrono` and `cron` go through small
  trusted wrappers whose doc comments say what is assumed of them.
- `tests/` runs the library on concrete values.
- `app/` holds what cannot be verified: reading the environment and files,
  the process backend that spawns shell commands, conversion to and from
  `serde_json`, and the JSON schemas of the registered tools.
