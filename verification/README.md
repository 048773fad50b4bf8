# kytti

The rules of a read-only gateway to a HashiCorp Vault KV v2 store, written and
proved in Verus, and the MCP server built on them.

- `src/` is the library. `tools` decides which paths may be asked for and what
  the caller of a tool gets; `vault` says which request goes out and what a reply
  means; `config` checks a configuration and its token and replaces them as one;
  `errors` is what can go wrong and how it is told; `startup` holds the decisions
  of the program around it. `text`, `map` and `json` carry the rest. `laws` states
  what holds of all of it together.
- `tests/` runs the library on concrete values.
- `app/` is the program: files, signals, timers and sockets.

What is not proved is what `serde_json` does: its parser and printer are called
through the few functions in `src/json.rs` marked `external_body`, and the comment
above each says what is taken on trust.
