# websocket_chat_server

A WebSocket chat server with broadcast rooms. `src/` is the library, verified
with Verus; `app/` is the program around it, with the sockets, timers and
signals.

- `server`: the rooms and what can be asked of them: joining, leaving, sending
  a message, removing rooms that have been empty for ten minutes.
- `room`, `channel`, `registry`: a room, its broadcast channel, and the table
  of all rooms.
- `connection`, `join`: a connection's way in and out.
- `session`: what a client sends: size and rate limits, and whose name it is in.
- `outgoing`: what a client is sent.
- `message`, `payload`: messages and the notices that the server itself sends.
- `clock`: times, in nanoseconds, on a clock that never runs backwards.
- `laws`, `delivery`: what holds of the server as a whole, and of a message on
  its way from one client to the others.
