use vstd::prelude::*;

use crate::chunk::Chunk;
use crate::constants::{MAP_CHUNK_HEIGHT, MAP_CHUNK_WIDTH};

verus! {

/// The game map: a grid of chunks stored column by column, so that
/// `chunks[i][j]` is the chunk in column `i`, row `j`.
#[derive(Debug)]
pub struct GameMap {
    pub chunks: Vec<Vec<Chunk>>,
}

/// The (column, row) pairs of one column of chunks.
pub open spec fn column_view(col: Vec<Chunk>) -> Seq<(i32, i32)> {
    col@.map_values(|c: Chunk| c@)
}

/// The standard layout: `MAP_CHUNK_WIDTH` columns of `MAP_CHUNK_HEIGHT`
/// chunks each, where the chunk at `[i][j]` is column `i`, row `j`.
pub open spec fn standard_layout() -> Seq<Seq<(i32, i32)>> {
    Seq::new(
        MAP_CHUNK_WIDTH as nat,
        |i: int| Seq::new(MAP_CHUNK_HEIGHT as nat, |j: int| (i as i32, j as i32)),
    )
}

impl View for GameMap {
    type V = Seq<Seq<(i32, i32)>>;

    /// The map is the grid of its chunks' (column, row) pairs.
    open spec fn view(&self) -> Seq<Seq<(i32, i32)>> {
        self.chunks@.map_values(|col: Vec<Chunk>| column_view(col))
    }
}

impl GameMap {
    /// The map in its standard layout.
    pub fn new() -> (m: GameMap)
        ensures
            m@ == standard_layout(),
    {
        let mut chunks: Vec<Vec<Chunk>> = Vec::with_capacity(MAP_CHUNK_WIDTH);
        let width: i32 = 4;
        let height: i32 = 3;
        let mut i: i32 = 0;
        while i < width
            invariant
                0 <= i <= width,
                width == MAP_CHUNK_WIDTH,
                height == MAP_CHUNK_HEIGHT,
                chunks@.len() == i,
                forall|a: int| 0 <= a < i ==> #[trigger] column_view(chunks@[a]) == standard_layout()[a],
            decreases width - i,
        {
            let mut col: Vec<Chunk> = Vec::with_capacity(MAP_CHUNK_HEIGHT);
            let mut j: i32 = 0;
            while j < height
                invariant
                    0 <= i < width,
                    0 <= j <= height,
                    height == MAP_CHUNK_HEIGHT,
                    col@.len() == j,
                    forall|b: int| 0 <= b < j ==> #[trigger] col@[b]@ == (i, b as i32),
                decreases height - j,
            {
                col.push(Chunk::new(i, j));
                j = j + 1;
            }
            assert(column_view(col) =~= standard_layout()[i as int]);
            chunks.push(col);
            i = i + 1;
        }
        let m = GameMap { chunks };
        assert(m@ =~= standard_layout());
        m
    }
}

impl Clone for GameMap {
    /// A copy of the map, equal to it chunk for chunk.
    fn clone(&self) -> (r: GameMap)
        ensures
            r@ == self@,
    {
        let mut chunks: Vec<Vec<Chunk>> = Vec::with_capacity(self.chunks.len());
        let mut i: usize = 0;
        while i < self.chunks.len()
            invariant
                0 <= i <= self.chunks@.len(),
                chunks@.len() == i,
                forall|a: int| 0 <= a < i ==> #[trigger] column_view(chunks@[a]) == column_view(self.chunks@[a]),
            decreases self.chunks@.len() - i,
        {
            let src = &self.chunks[i];
            let mut col: Vec<Chunk> = Vec::with_capacity(src.len());
            let mut j: usize = 0;
            while j < src.len()
                invariant
                    0 <= j <= src@.len(),
                    col@ == src@.take(j as int),
                decreases src@.len() - j,
            {
                col.push(src[j]);
                assert(src@.take(j + 1) =~= src@.take(j as int).push(src@[j as int]));
                j = j + 1;
            }
            assert(src@.take(j as int) =~= src@);
            assert(column_view(col) =~= column_view(self.chunks@[i as int]));
            chunks.push(col);
            i = i + 1;
        }
        let r = GameMap { chunks };
        assert(r@ =~= self@);
        r
    }
}

} // verus!
