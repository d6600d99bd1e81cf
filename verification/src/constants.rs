use vstd::prelude::*;

verus! {

/// Side length of one square map chunk, in pixels.
pub const CHUNK_SIZE: i32 = 64;

/// Number of chunk columns on the map.
pub const MAP_CHUNK_WIDTH: usize = 4;

/// Number of chunk rows on the map.
pub const MAP_CHUNK_HEIGHT: usize = 3;

/// Width of the map in pixels (`CHUNK_SIZE * MAP_CHUNK_WIDTH`).
pub const MAP_WIDTH: i32 = 256;

/// Height of the map in pixels (`CHUNK_SIZE * MAP_CHUNK_HEIGHT`).
pub const MAP_HEIGHT: i32 = 192;

/// Distance a player moves for one command, in pixels.
pub const STEP: i32 = 4;

/// Side length of a player's sprite, in pixels; a player's position is the
/// sprite's top-left corner and must leave room for the sprite on the map.
pub const PLAYER_SIZE: i32 = 16;

/// The map's dimensions agree with its chunk grid.
pub proof fn lemma_map_size_matches_chunks()
    ensures
        MAP_WIDTH == CHUNK_SIZE * MAP_CHUNK_WIDTH,
        MAP_HEIGHT == CHUNK_SIZE * MAP_CHUNK_HEIGHT,
{
}

} // verus!
