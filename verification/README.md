# lingxiao_core

The core of an agent runtime as a library whose behaviour is proved with Verus, and a
daemon around it.

## Layout

`src/` is the verified library. Every function states in its contract what it returns or
changes, over mathematical views of its data. Proof functions whose names begin with
`law_` state what holds of several functions together.

| Module | What it decides |
| --- | --- |
| `protocol` | commands, events, errors and snapshots |
| `event_log`, `projection`, `redact` | numbering, replay and compaction of events, what a client that connects is told, what is kept out of the log |
| `agent` | the loop of an agent, its guards against repeated and failing calls, escalation, the pool |
| `llm` | which provider serves a request, retries, circuit breakers, fallbacks, calls of provider processes |
| `runtime`, `bus`, `context`, `schedule`, `leader` | budgets, messages, conversations, cron lines, plans |
| `sidecar`, `terminal`, `document_tools`, `mcp_bridge`, `repl`, `process`, `output` | tools that run as processes |
| `persistence`, `daemon`, `runtime_config` | the schema of the store, the command line, what an operator configures |
| `json`, `json_equality`, `text`, `text_order`, `str_map`, `calendar` | the ground that the others stand on |

Work that reaches outside (processes, threads, the store, the clock) is not done by the
library. A run of a tool, a call of a provider or a round of an agent is a machine: it
takes in what has happened and says what to do next. `app/` does it.

`app/` is the daemon: it reads commands from its standard input and answers them on its
standard output, one JSON value to a line.

`tests/` runs the library on concrete values.

## What is not proved

The functions marked `external_body`, and the ones that `assume_specification` speaks of,
call `serde_json`, `sha1` or the standard library. Each says in its comment what is
claimed of that call. Nothing is proved of `app/`.
