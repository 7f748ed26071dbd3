//! The floor plan: one tile for every cell of the map area, row by row.

use crate::constants::{MAP_HEIGHT, MAP_WIDTH};
use vstd::prelude::*;

verus! {

#[derive(Debug, Clone, Copy, PartialEq, Eq, Structural)]
pub enum Tile {
    Wall,
    Floor,
    Empty,
}

#[derive(Debug)]
pub struct TileMap {
    tiles: Vec<Tile>,
}

impl View for TileMap {
    type V = Seq<Tile>;

    closed spec fn view(&self) -> Seq<Tile> {
        self.tiles@
    }
}

impl Clone for TileMap {
    fn clone(&self) -> (copy: TileMap)
        ensures
            copy@ == self@,
    {
        let mut tiles: Vec<Tile> = Vec::new();
        let mut i: usize = 0;
        while i < self.tiles.len()
            invariant
                i <= self.tiles.len(),
                tiles@ == self.tiles@.take(i as int),
            decreases self.tiles.len() - i,
        {
            tiles.push(self.tiles[i]);
            assert(tiles@ =~= self.tiles@.take(i + 1));
            i = i + 1;
        }
        assert(self.tiles@.take(i as int) == self.tiles@);
        TileMap { tiles }
    }
}

/// Where the tile of a cell is kept: rows follow each other, each `MAP_WIDTH`
/// tiles long.
pub open spec fn cell_index(x: int, y: int) -> int {
    y * MAP_WIDTH + x
}

/// Whether a plan of `len` tiles keeps a tile for the cell, at an index that
/// machine arithmetic can reach.
pub open spec fn kept(x: int, y: int, len: int) -> bool {
    &&& i32::MIN <= y * MAP_WIDTH <= i32::MAX
    &&& cell_index(x, y) <= i32::MAX
    &&& 0 <= cell_index(x, y) < len
}

/// Whether the cell lies in the map area.
pub open spec fn on_map(x: int, y: int) -> bool {
    0 <= x < MAP_WIDTH && 0 <= y < MAP_HEIGHT
}

/// The tile of a cell in the plan of the room: a room over the upper left
/// quarter of the map area, walled in, with nothing around it.
pub open spec fn room_tile(x: int, y: int) -> Tile {
    let w = MAP_WIDTH as int / 2;
    let h = MAP_HEIGHT as int / 2;
    if 0 < x < w - 1 && 0 < y < h - 1 {
        Tile::Floor
    } else if 0 <= x < w && 0 <= y < h {
        Tile::Wall
    } else {
        Tile::Empty
    }
}

/// Whether a mover at `(x, y)` finds the cell `(tx, ty)` taken by one of the
/// others.
pub open spec fn taken(others: Seq<(i32, i32)>, tx: int, ty: int) -> bool {
    exists|i: int| 0 <= i < others.len() && (#[trigger] others[i]).0 == tx && others[i].1 == ty
}

/// The character that stands for a tile on the screen.
pub fn tile_glyph(tile: Tile) -> (glyph: char)
    ensures
        glyph == match tile {
            Tile::Floor => '.',
            Tile::Wall => '#',
            Tile::Empty => ' ',
        },
{
    match tile {
        Tile::Floor => '.',
        Tile::Wall => '#',
        Tile::Empty => ' ',
    }
}

/// Where a cell of the map shows on the screen while the player stands at
/// `(player_x, player_y)`, before it is known whether that is on the screen.
/// The view is centred on the player.
pub open spec fn shown_at(x: int, y: int, player_x: int, player_y: int) -> (int, int) {
    (MAP_WIDTH as int / 2 + 1 + x - player_x, MAP_HEIGHT as int / 2 + 1 + y - player_y)
}

/// The screen cell on which a cell of the map is drawn while the player
/// stands at `(player_x, player_y)`; `None` where it falls outside the map
/// area of the screen.
pub fn screen_cell(x: i32, y: i32, player_x: i32, player_y: i32) -> (cell: Option<(i32, i32)>)
    ensures
        cell == if on_map(
            shown_at(x as int, y as int, player_x as int, player_y as int).0,
            shown_at(x as int, y as int, player_x as int, player_y as int).1,
        ) {
            Some(
                (
                    shown_at(x as int, y as int, player_x as int, player_y as int).0 as i32,
                    shown_at(x as int, y as int, player_x as int, player_y as int).1 as i32,
                ),
            )
        } else {
            None
        },
{
    let screen_x: i64 = (MAP_WIDTH / 2 + 1) as i64 + x as i64 - player_x as i64;
    let screen_y: i64 = (MAP_HEIGHT / 2 + 1) as i64 + y as i64 - player_y as i64;
    if 0 <= screen_x && screen_x < MAP_WIDTH as i64 && 0 <= screen_y && screen_y < MAP_HEIGHT as i64 {
        Some((screen_x as i32, screen_y as i32))
    } else {
        None
    }
}

impl TileMap {
    /// A plan of the map area with nothing on it.
    pub fn new() -> (plan: TileMap)
        ensures
            plan@.len() == MAP_WIDTH * MAP_HEIGHT,
            forall|i: int| 0 <= i < plan@.len() ==> plan@[i] == Tile::Empty,
    {
        let mut tiles: Vec<Tile> = Vec::new();
        let mut i: i32 = 0;
        while i < MAP_WIDTH * MAP_HEIGHT
            invariant
                0 <= i <= MAP_WIDTH * MAP_HEIGHT,
                tiles.len() == i,
                forall|j: int| 0 <= j < i ==> tiles@[j] == Tile::Empty,
            decreases MAP_WIDTH * MAP_HEIGHT - i,
        {
            tiles.push(Tile::Empty);
            i = i + 1;
        }
        TileMap { tiles }
    }

    /// The plan of the room in which the story is set.
    pub fn room() -> (plan: TileMap)
        ensures
            plan@.len() == MAP_WIDTH * MAP_HEIGHT,
            forall|x: int, y: int| on_map(x, y) ==> plan@[#[trigger] cell_index(x, y)] == room_tile(x, y),
    {
        let mut plan = TileMap::new();
        let mut y: i32 = 0;
        while y < MAP_HEIGHT
            invariant
                0 <= y <= MAP_HEIGHT,
                plan@.len() == MAP_WIDTH * MAP_HEIGHT,
                forall|px: int, py: int|
                    on_map(px, py) && py < y ==> plan@[#[trigger] cell_index(px, py)] == room_tile(
                        px,
                        py,
                    ),
            decreases MAP_HEIGHT - y,
        {
            let mut x: i32 = 0;
            while x < MAP_WIDTH
                invariant
                    0 <= y < MAP_HEIGHT,
                    0 <= x <= MAP_WIDTH,
                    plan@.len() == MAP_WIDTH * MAP_HEIGHT,
                    forall|px: int, py: int|
                        on_map(px, py) && (py < y || (py == y && px < x)) ==> plan@[#[trigger] cell_index(
                            px,
                            py,
                        )] == room_tile(px, py),
                decreases MAP_WIDTH - x,
            {
                let tile = if 0 < x && x < MAP_WIDTH / 2 - 1 && 0 < y && y < MAP_HEIGHT / 2 - 1 {
                    Tile::Floor
                } else if x < MAP_WIDTH / 2 && y < MAP_HEIGHT / 2 {
                    Tile::Wall
                } else {
                    Tile::Empty
                };
                let ghost before = plan@;
                plan.set_tile(x, y, tile);
                assert forall|px: int, py: int|
                    on_map(px, py) && (py < y || (py == y && px < x + 1)) implies plan@[#[trigger] cell_index(
                    px,
                    py,
                )] == room_tile(px, py) by {
                    if px == x && py == y {
                    } else {
                        assert(cell_index(px, py) != cell_index(x as int, y as int));
                        assert(plan@[cell_index(px, py)] == before[cell_index(px, py)]);
                    }
                }
                x = x + 1;
            }
            y = y + 1;
        }
        plan
    }

    pub fn get_tile(&self, x: i32, y: i32) -> (tile: Tile)
        requires
            kept(x as int, y as int, self@.len() as int),
        ensures
            tile == self@[cell_index(x as int, y as int)],
    {
        self.tiles[(y * MAP_WIDTH + x) as usize]
    }

    pub fn set_tile(&mut self, x: i32, y: i32, tile: Tile)
        requires
            kept(x as int, y as int, old(self)@.len() as int),
        ensures
            final(self)@ == old(self)@.update(cell_index(x as int, y as int), tile),
    {
        self.tiles.set((y * MAP_WIDTH + x) as usize, tile);
    }

    /// Where a mover at `(x, y)` stands after trying a step of `(dx, dy)`: on
    /// the cell stepped to where that is floor and none of the others stands
    /// there, else where it stood.
    pub fn try_step(&self, x: i32, y: i32, dx: i32, dy: i32, others: &Vec<(i32, i32)>) -> (at: (
        i32,
        i32,
    ))
        requires
            i32::MIN <= x + dx <= i32::MAX,
            i32::MIN <= y + dy <= i32::MAX,
            !taken(others@, x + dx, y + dy) ==> kept(x + dx, y + dy, self@.len() as int),
        ensures
            at == if !taken(others@, x + dx, y + dy) && self@[cell_index(x + dx, y + dy)]
                == Tile::Floor {
                ((x + dx) as i32, (y + dy) as i32)
            } else {
                (x, y)
            },
    {
        let tx: i32 = x + dx;
        let ty: i32 = y + dy;
        let mut blocked = false;
        let mut i: usize = 0;
        while i < others.len() && !blocked
            invariant
                i <= others.len(),
                blocked ==> taken(others@, tx as int, ty as int),
                !blocked ==> forall|j: int|
                    0 <= j < i ==> !((#[trigger] others@[j]).0 == tx && others@[j].1 == ty),
            decreases others.len() - i,
        {
            if others[i].0 == tx && others[i].1 == ty {
                blocked = true;
            }
            i = i + 1;
        }
        if !blocked && self.get_tile(tx, ty) == Tile::Floor {
            (tx, ty)
        } else {
            (x, y)
        }
    }
}

} // verus!
