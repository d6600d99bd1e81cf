//! Game-state logic of a small multiplayer game: the chunked map, players and
//! their movement, the messages exchanged between client and server, and the
//! decisions the server and the client take on each event.

pub mod chunk;
pub mod client;
pub mod constants;
pub mod keyed;
pub mod map;
pub mod messages;
pub mod player;
pub mod server;
pub mod world;
