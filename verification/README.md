# dxlink

A client of DXLink, the WebSocket protocol for market data.

- `src/` is the library: what is decided. It decodes the batches of a feed, keeps the channels,
  layouts, subscriptions and requests of a client, reads and writes the messages of the protocol,
  and says how a session is established, lost, rebuilt and ended. Every function has a contract,
  proved with Verus. Nothing in it reads a socket, a clock or a random number.
- `app/` is the client around it: the socket, the tasks, the clock, and events with the floating
  point numbers of the machine.
- `tests/` run the library against concrete messages, with `serde_json` and `tungstenite` linked.

What is proved holds for every input. What it rests on beyond Verus is marked where it stands: the
declarations of `serde_json`'s and `tungstenite`'s types, and a few small functions that call them
or the standard library.
