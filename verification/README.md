# signalrs

A library for the SignalR hub protocol (JSON over WebSockets), whose
protocol logic is verified with Verus.

- `src/` is the verified library: record-separator framing of messages,
  the JSON text of protocol messages, the state machines of the stream
  adaptors that turn hub results into message streams, the registries of
  awaited and running invocations and of upload streams, the routing
  decisions of clients and servers with their effect on the registries, and
  the decisions of the WebSocket connection loops of client and server
  (handshake, pings, life-sign timeout, what each frame leads to). Its laws (framing round trips, what each
  adaptor yields over a whole stream, what a fallible stream is forwarded as,
  read-after-write of the registries) are public proof functions.
- `app/` is the runtime around it: serde (de)serialization, channels, tokio
  tasks, `futures` streams, the WebSocket I/O of the client, random ids, and
  the axum routes of the server.
- `tests/` runs the library on concrete values.
