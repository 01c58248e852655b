# agentscope

Agents that reason with a chat model, act with tools and observe the results: the
messages they exchange, the model exchanges behind them, the context they send, and
the decisions of the agent loop, each with a contract that Verus proves.

## Layout

- `src/message*`: messages, content blocks, token usage, and their JSON form both ways.
- `src/model*`: requests, responses, stream accumulation, a scripted model, and the
  wire format, event stream and retry rules of OpenAI-compatible providers.
- `src/context*`: which history a request carries: recent turns, token budgets,
  summaries of old history, and references in the place of large tool results.
- `src/agent*`: checkpoints, snapshots and stores, and the agent loop as machines that
  ask a driver for one action after another: `reply`, `resume`, `recovery`, `session`,
  `compact` and `stream`.
- `src/pipeline*`: agents in sequence, streamed and checkpointed.
- `src/json.rs`, `src/text.rs`, `src/time.rs`, `src/assoc.rs`, `src/view.rs`: the plain
  data that the rest is written with.
- `app/`: the asynchronous side: model, memory, store and tool interfaces, an HTTP
  client, a SQLite memory, and the drivers of the machines.
- `tests/`: the library on concrete values.

Calls into other crates stand behind small functions whose contracts are trusted; their
doc comments name the function they call and what is claimed of it.
