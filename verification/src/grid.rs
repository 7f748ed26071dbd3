//! A floor plan kept row by row, each tile saying what it blocks.

use vstd::prelude::*;

verus! {

#[derive(Clone, Copy, Debug)]
pub struct Tile {
    pub blocks_movement: bool,
    pub blocks_light: bool,
}

#[derive(Debug)]
pub struct TileGrid {
    map: Vec<Vec<Tile>>,
}

impl View for TileGrid {
    type V = Seq<Seq<Tile>>;

    closed spec fn view(&self) -> Seq<Seq<Tile>> {
        Seq::new(self.map@.len(), |y: int| self.map@[y]@)
    }
}

impl TileGrid {
    /// A plan without rows.
    pub fn new() -> (grid: TileGrid)
        ensures
            grid@.len() == 0,
    {
        TileGrid { map: Vec::new() }
    }

    /// Adds a row below the others.
    pub fn push_row(&mut self, row: Vec<Tile>)
        ensures
            final(self)@ == old(self)@.push(row@),
    {
        self.map.push(row);
        assert(self@ =~= old(self)@.push(row@));
    }

    /// The tile in column `x` of row `y`.
    pub fn get_tile_at(&self, x: usize, y: usize) -> (tile: Tile)
        requires
            y < self@.len(),
            x < self@[y as int].len(),
        ensures
            tile == self@[y as int][x as int],
    {
        self.map[y][x]
    }
}

} // verus!
