# claw_core

The verified core of a local-model chat stack: an Ollama/OpenAI-compatible
provider layer, a chat server's session store and turn handling, an MCP
client's JSON-RPC requests, and the state of a terminal interface.

- `src/` is the library. Every function in it carries a `requires`/`ensures`
  contract that Verus proves; calls into `serde_json`, `regex`, `uuid`,
  `textwrap`, `ratatui` and a few `std` functions stand behind small trusted
  wrappers whose contracts are documented where they are declared.
- `tests/` runs the library on concrete values.
- `app/` holds what cannot be verified: the HTTP and WebSocket server, the
  HTTP client, SQLite storage, configuration files, and terminal drawing.
  It calls the library for every decision and conversion.
