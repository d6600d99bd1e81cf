# multi

A small multiplayer game: a server keeps the game state and broadcasts it;
clients sign in, send movement commands, and draw what the server sends.

- `src/` is the verified library: the chunk map, players and their movement,
  the messages, the server's state machine (`server.rs`) and the client's
  decisions (`client.rs`), with their contracts and the proofs of the game's
  laws (movement stays on the map, sign-in and sign-out, broadcasts).
- `app/` is the program around it: `multi server` listens on a websocket,
  stores players in SQLite and hands every event to the library;
  `multi client [USERNAME]` opens a window, draws the world and sends the
  keys held down.
- `tests/` runs the library on concrete values.
