use vstd::prelude::*;

use crate::world::WorldState;

verus! {

/// A movement command sent by a client for its player.
#[derive(Debug, Clone, Copy, PartialEq, Eq, Structural)]
pub enum Cmd {
    Up,
    Down,
    Left,
    Right,
}

/// A message from a client to the server.
#[derive(Debug)]
pub enum FromClientMessage {
    /// Movement commands for the client's player, applied in order.
    Update { cmds: Vec<Cmd> },
    /// Sign in as `username`.
    Init { username: String },
}

/// A message from the server to a client.
#[derive(Debug)]
pub enum FromServerMessage {
    /// The current state of the world.
    Tick { world: WorldState },
    /// The client's sign-in was accepted.
    ConnectionSuccess,
    /// The client's sign-in was refused, with the reason.
    ConnectionError(String),
}

} // verus!
