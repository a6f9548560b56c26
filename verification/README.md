# codewhale_tui

The engine of a coding agent for the terminal: what a turn may do, what the
model is told, which tools it is offered, how its calls are planned, and how its
context is kept within bounds.

- `src/` is the library. Each function states in its contract what it returns or
  changes, and Verus proves it. Where the library calls another crate, a small
  function around the call states what is believed of it.
- `tests/` runs the library from outside, with the other crates linked.
- `app/` talks to the outside world: files, processes, channels and the
  terminal. It asks the library for every decision.

The modules of the library:

| module | what it is about |
| --- | --- |
| `text`, `json`, `order`, `names`, `paths` | texts, JSON values, sorted lists, sets of names, paths |
| `models`, `ops`, `events`, `llm_client` | what is exchanged with the model and the host |
| `authority`, `execpolicy` | what a turn and a shell command may do |
| `streaming`, `tool_parser`, `dispatch` | the model's answer, the tool calls in it, and their order |
| `tool_catalog`, `context` | the tools on offer, and results made fit for the context |
| `session`, `turn`, `goal_loop`, `token_estimate_cache` | the conversation, its turns, goals and estimates |
| `engine` | the engine: requests, turns, shell commands, compaction and recovery |
| `lsp` | language servers: frames, messages and diagnostics |
| `eval` | a scenario that runs without a model |
| `deepseek_theme`, `logging` | colours, and what is logged |
