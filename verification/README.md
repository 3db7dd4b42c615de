# server

The websocket chat core of a small link aggregator, verified with Verus.

- `src/chat.rs`: the sessions and the rooms (one per post). Connecting,
  disconnecting, moving a session into a post's room and working out who a
  room message reaches are stated over a mathematical view (`ChatView`), with
  the laws that relate them (every session listens in at most one room,
  disconnecting forgets a session everywhere, joining is idempotent, ...).
- `src/operation.rs`: the operation names clients send and their text forms.
- `src/protocol.rs`: the requests, the decisions taken for each of them, and
  the JSON replies. Database work is outside: each step takes what a lookup or
  an insert gave back.
- `src/json.rs`: JSON framing of objects and arrays; string literals and the
  reading of client messages go through `serde_json`.
- `src/decimal.rs`: decimal text of integers.
- `app/`: the actix actor around the core, the serde forms of the requests and
  the `Store` trait through which the database is reached.
