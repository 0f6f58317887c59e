# codev

The transport layer of an agent server, verified with Verus: how the messages of an agent are
routed to the streams of its client, what the HTTP endpoints in front of it decide, and how a
user signs in to a remote tool server.

- `src/` is the library. Every function has a contract over a mathematical model, and the laws
  that span several functions are public proof functions beside them.
  - `stream`, `connection`, `routes`, `registry`, `keyed_list`: the state of connections
  - `http`, `reply`, `sse`: the endpoints and the event streams
  - `oauth`, `decimal`, `template`: the sign-in, and the page that ends it
  - `schema_refs`: references to API schemas that are defined elsewhere
  - `json`, `channel`: the calls into `serde_json` and `tokio`, with what is trusted of them
- `tests/` runs the library with the real crates.
- `app/` holds the sockets, the tasks and the traits of other crates around it.
