use vstd::prelude::*;

use crate::constants::CHUNK_SIZE;

verus! {

/// One square tile of the map, identified by its column `x` and row `y`.
#[derive(Debug, Clone, Copy, PartialEq, Eq, Structural)]
pub struct Chunk {
    x: i32,
    y: i32,
}

impl View for Chunk {
    type V = (i32, i32);

    /// A chunk is its (column, row) pair.
    closed spec fn view(&self) -> (i32, i32) {
        (self.x, self.y)
    }
}

impl Chunk {
    /// The chunk at column `x`, row `y`.
    pub fn new(x: i32, y: i32) -> (c: Chunk)
        ensures
            c@ == (x, y),
    {
        Chunk { x, y }
    }

    /// The chunk's column.
    pub fn x(&self) -> (r: i32)
        ensures
            r == self@.0,
    {
        self.x
    }

    /// The chunk's row.
    pub fn y(&self) -> (r: i32)
        ensures
            r == self@.1,
    {
        self.y
    }

    /// Pixel position of the chunk's top-left corner, where it is drawn.
    pub fn screen_position(&self) -> (r: (i64, i64))
        ensures
            r.0 == self@.0 * CHUNK_SIZE,
            r.1 == self@.1 * CHUNK_SIZE,
    {
        (self.x as i64 * CHUNK_SIZE as i64, self.y as i64 * CHUNK_SIZE as i64)
    }
}

} // verus!
