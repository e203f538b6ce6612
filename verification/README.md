# oneiros-engine

The verified core of the oneiros engine, written in Verus.

- `src/lens/`: the lens language. Expression trees (`ast`), their text
  form with a parser and renderer (`text_form`, with the round-trip law in
  `round_trip`), aliases (`aliases`), the predicate registry (`registry`),
  validation and name checking (`validator`, `name_resolver`), compilation
  to a slot-based intermediate representation (`compile`, `ir`),
  explanations (`explain`, `debug`), selections and their set algebra
  (`selection`) and the step-by-step execution of compiled lenses
  (`execute`).
- `src/migrations/`: the layout-migration sweep as a state machine, the
  legacy schema renames and the snapshot naming.
- `src/http/`: authentication decisions, bookmark resolution and the
  server's configuration.
- `src/invocation.rs`, `src/events.rs`, `src/event_log.rs`: command-line
  invocations rendered from JSON forms, event type tags and the event
  store's statements.
- `src/mailbox.rs`, `src/messages.rs`: bus messages and their routing.
- `src/config.rs`, `src/engine.rs`, `src/logs.rs`, `src/keys.rs`,
  `src/error.rs`, `src/mcp.rs`: configuration, the engine entry point,
  request contexts, the host key, and error descriptions.

`app/` holds what runs around the library: serde conversions, the async
reader dispatch of lens execution, the file-system side of migrations and
of the host key, and the bus channels. `tests/` exercises the library.
