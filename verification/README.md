# shell-remote

A collaborative remote shell. A relay accepts agents, which offer the shells, files and commands of
their machine, and browsers and AI agents, which use them. Tokens say who may read and who may write.

The rules are a library that Verus verifies; the program around it does the input and output.

- `src/relay/`: sessions and tokens, routing, replay buffers, bounded queues, rate limits, the admin
  panel, the MCP endpoint, uploads, recordings, idle sessions.
- `src/agent/`: tabs, terminal output, the file manager, background commands, the connection to the
  relay.
- `src/proto.rs`, `src/payload.rs`, `src/json.rs`: messages and the documents that carry them.
- `src/handshake.rs`: what agents and the relay say to each other fits together.
- `src/outside.rs`: the calls into other crates, with what is taken on trust of each.
- `src/text.rs`, `src/strmap.rs`, `src/seqs.rs`, `src/chance.rs`, `src/clock.rs`: what the rest is
  built on.
- `app/`: the program: command line, HTTP server and client, pseudo-terminals, processes, files.
- `tests/`: tests of the library.

Functions that draw random values or read the clock have a twin that takes them as arguments
(`register` and `register_with`, `sweep_idle` and `sweep_idle_at`): the twin says exactly what it
does, the other that it does so for some value.
