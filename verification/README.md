# netflow

One server and one client for three transports: TCP with length-prefixed
frames, UDP datagrams and WebSocket messages.

- `src/` is the library: the protocol logic as state machines and plain
  functions, proved with Verus. A machine names the next action and takes what
  happened as its next event; it touches no socket.
- `app/` runs the machines on tokio: sockets, tasks, locks.
- `tests/` runs the library on concrete values.

The modules of the library:

| module | what it holds |
| --- | --- |
| `frame` | length fields and framing |
| `writer` | the tasks that write frames and WebSocket messages |
| `message` | WebSocket messages and what they deliver |
| `packet` | received packets, responders and deliveries |
| `server` | the server, its listeners and connections, and the table of open connections |
| `client` | how a client connects, sends and listens |
| `laws` | what holds between a client and a server |
| `addr`, `channel`, `datagram`, `error`, `text` | addresses, queues, buffers, faults and text |
| `demo` | the rule of the demonstration server |
