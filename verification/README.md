# portmanager

A resilient port forwarder that bootstraps its agent over SSH. What the program
decides and computes is a Verus library; sockets, processes and files are
ordinary Rust around it.

- `src/` is the library. `text`, `number` and `order` are its groundwork;
  `error`, `command` and `forward` hold the shared types. `deploy` and
  `bootstrap` bring an agent up, `agent` says what it does with a stream.
  `netns`, `protocol`, `dial` and `pool` are about the helpers inside network
  namespaces. `discovery`, `snapshot` and `autoforward` find listening ports and
  forward them, `netwatch` notices when the network path moves, and `session`
  reads the command line.
- `tests/` runs the library.
- `app/` performs what the library asks for. It is generic over the parts that a
  program supplies: keys and TLS settings, the handshake, stream framing, the
  text forms of specs, and saved state.

A loop that waits for the outside world is a state machine here: the library
says what to do next, the caller does it and reports what came of it, and the
contracts cover every run of such reports.

What is taken on trust is marked in the source and says which function of std
or of an outside crate it speaks of: `String::push`, the `Debug` form of a text,
lossy UTF-8 decoding, the messages of an `anyhow` error chain, SHA-256 and
hexadecimal encoding.
