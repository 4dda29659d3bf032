# cc-agent

The core of a terminal coding assistant, verified with Verus: how slash
commands are read, how credentials are chosen, how settings layers combine,
how the model's server-sent event stream becomes events and assistant
messages, which tools run and what they answer, how skills, hooks, plugins,
memories and sessions are found and stored, and what the terminal and the
HTTP server show.

Layout:

- `src/` — the verified library. Each module states its behaviour in
  `requires`/`ensures` over `Seq`, `Map` and `Set` models; public proof
  functions state the laws that hold across calls (settings merging is
  associative and has the empty settings as identity, the JSON value of a
  stored session reads back as the same messages (tool results whose error
  flag is an explicit `false` excepted), a whole engine
  turn keeps the system prompt and the earlier messages, "allow always" is
  remembered for that tool alone, skill and MCP server names stay unique, the permission
  prompt's selection cycles, thinking toggled twice is unchanged, and more).
- `tests/` — tests of the library on concrete values.
- `app/` — the programs around it: the terminal loop, the HTTP server, and
  everything that touches the network, the file system, processes and the
  terminal.
