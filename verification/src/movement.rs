//! Who stands next to whom, and when a wandering suspect takes its next
//! step.

use crate::map::{cell_index, kept, Tile, TileMap};
use crate::options::Options;
use crate::placement::{chebyshev, distance};
use crate::random::range_i32;
use rltk::RandomNumberGenerator;
use vstd::prelude::*;

verus! {

#[derive(Debug, Clone, Copy, Default)]
pub struct MovementAI {
    pub is_idle: bool,
    pub cooldown: i32,
    pub max_cooldown: i32,
}

impl MovementAI {
    /// Lets one turn pass, and says whether the mover takes a step in it. An
    /// idle mover never does. Another waits while its cooldown runs, one turn
    /// at a time; once it has run out the mover takes a step and the cooldown
    /// starts again.
    pub fn pass_turn(&mut self) -> (steps: bool)
        ensures
            steps == (!old(self).is_idle && old(self).cooldown <= 0),
            final(self).is_idle == old(self).is_idle,
            final(self).max_cooldown == old(self).max_cooldown,
            final(self).cooldown == if old(self).is_idle {
                old(self).cooldown
            } else if old(self).cooldown > 0 {
                (old(self).cooldown - 1) as i32
            } else {
                old(self).max_cooldown
            },
    {
        if !self.is_idle {
            if self.cooldown > 0 {
                self.cooldown -= 1;
                false
            } else {
                self.cooldown = self.max_cooldown;
                true
            }
        } else {
            false
        }
    }
}

/// Whether two cells touch: each is at most one cell from the other, in both
/// directions.
pub open spec fn touches(ax: int, ay: int, bx: int, by: int) -> bool {
    chebyshev(ax, ay, bx, by) <= 1
}

/// Whether two cells touch.
pub fn is_adjacent(ax: i32, ay: i32, bx: i32, by: i32) -> (near: bool)
    ensures
        near == touches(ax as int, ay as int, bx as int, by as int),
{
    distance(ax, ay, bx, by) <= 1
}

/// The first of the places that touches the cell, if any does.
pub fn first_adjacent(places: &Vec<(i32, i32)>, x: i32, y: i32) -> (found: Option<usize>)
    ensures
        match found {
            Some(i) => {
                &&& i < places.len()
                &&& touches(places@[i as int].0 as int, places@[i as int].1 as int, x as int, y as int)
                &&& forall|j: int|
                    0 <= j < i ==> !touches(
                        (#[trigger] places@[j]).0 as int,
                        places@[j].1 as int,
                        x as int,
                        y as int,
                    )
            },
            None => forall|j: int|
                0 <= j < places.len() ==> !touches(
                    (#[trigger] places@[j]).0 as int,
                    places@[j].1 as int,
                    x as int,
                    y as int,
                ),
        },
{
    let mut i: usize = 0;
    while i < places.len()
        invariant
            i <= places.len(),
            forall|j: int|
                0 <= j < i ==> !touches(
                    (#[trigger] places@[j]).0 as int,
                    places@[j].1 as int,
                    x as int,
                    y as int,
                ),
        decreases places.len() - i,
    {
        if is_adjacent(places[i].0, places[i].1, x, y) {
            return Some(i);
        }
        i = i + 1;
    }
    None
}

/// The last of the places that touches the cell, if any does.
pub fn last_adjacent(places: &Vec<(i32, i32)>, x: i32, y: i32) -> (found: Option<usize>)
    ensures
        match found {
            Some(i) => {
                &&& i < places.len()
                &&& touches(places@[i as int].0 as int, places@[i as int].1 as int, x as int, y as int)
                &&& forall|j: int|
                    i < j < places.len() ==> !touches(
                        (#[trigger] places@[j]).0 as int,
                        places@[j].1 as int,
                        x as int,
                        y as int,
                    )
            },
            None => forall|j: int|
                0 <= j < places.len() ==> !touches(
                    (#[trigger] places@[j]).0 as int,
                    places@[j].1 as int,
                    x as int,
                    y as int,
                ),
        },
{
    let mut found: Option<usize> = None;
    let mut i: usize = 0;
    while i < places.len()
        invariant
            i <= places.len(),
            match found {
                Some(k) => {
                    &&& k < i
                    &&& touches(
                        places@[k as int].0 as int,
                        places@[k as int].1 as int,
                        x as int,
                        y as int,
                    )
                    &&& forall|j: int|
                        k < j < i ==> !touches(
                            (#[trigger] places@[j]).0 as int,
                            places@[j].1 as int,
                            x as int,
                            y as int,
                        )
                },
                None => forall|j: int|
                    0 <= j < i ==> !touches(
                        (#[trigger] places@[j]).0 as int,
                        places@[j].1 as int,
                        x as int,
                        y as int,
                    ),
            },
        decreases places.len() - i,
    {
        if is_adjacent(places[i].0, places[i].1, x, y) {
            found = Some(i);
        }
        i = i + 1;
    }
    found
}

/// Whether the plan keeps a tile for the cell and for each of the eight
/// cells around it.
pub open spec fn surroundings_kept(plan: Seq<Tile>, x: int, y: int) -> bool {
    &&& i32::MIN < x < i32::MAX
    &&& i32::MIN < y < i32::MAX
    &&& forall|dx: int, dy: int|
        -1 <= dx <= 1 && -1 <= dy <= 1 ==> #[trigger] kept(x + dx, y + dy, plan.len() as int)
}

/// Where a wanderer at `(x, y)` stands after a random step of at most one
/// cell in each direction: on the cell stepped to where that is floor, else
/// where it stood.
pub fn wander(rng: &mut RandomNumberGenerator, plan: &TileMap, x: i32, y: i32) -> (at: (i32, i32))
    requires
        surroundings_kept(plan@, x as int, y as int),
    ensures
        at == (x, y) || (touches(at.0 as int, at.1 as int, x as int, y as int) && plan@[cell_index(
            at.0 as int,
            at.1 as int,
        )] == Tile::Floor),
{
    let dx = range_i32(rng, -1, 2);
    let dy = range_i32(rng, -1, 2);
    assert(kept(x + dx, y + dy, plan@.len() as int));
    let nobody: Vec<(i32, i32)> = Vec::new();
    plan.try_step(x, y, dx, dy, &nobody)
}

/// Whether any of the places touches the cell.
pub open spec fn any_touches(places: Seq<(i32, i32)>, x: int, y: int) -> bool {
    exists|i: int|
        0 <= i < places.len() && touches((#[trigger] places[i]).0 as int, places[i].1 as int, x, y)
}

/// The open actions after one under `key` has been closed and, where
/// something is in reach, opened again under the given label.
pub open spec fn reopened(
    open: Map<char, Seq<char>>,
    key: char,
    label: Seq<char>,
    in_reach: bool,
) -> Map<char, Seq<char>> {
    if in_reach {
        open.insert(key, label)
    } else {
        open.remove(key)
    }
}

/// Sees to it that the action under `key` is open exactly when one of the
/// places touches the player, and says which place the action is about: the
/// last one that touches.
fn offer_nearby(
    options: &mut Options,
    key: char,
    label: &str,
    places: &Vec<(i32, i32)>,
    x: i32,
    y: i32,
) -> (target: Option<usize>)
    ensures
        final(options)@ == reopened(
            old(options)@,
            key,
            label@,
            any_touches(places@, x as int, y as int),
        ),
        target.is_some() == any_touches(places@, x as int, y as int),
        match target {
            Some(i) => {
                &&& i < places.len()
                &&& touches(places@[i as int].0 as int, places@[i as int].1 as int, x as int, y as int)
                &&& forall|j: int|
                    i < j < places.len() ==> !touches(
                        (#[trigger] places@[j]).0 as int,
                        places@[j].1 as int,
                        x as int,
                        y as int,
                    )
            },
            None => true,
        },
{
    options.remove_option(key);
    let target = last_adjacent(places, x, y);
    if target.is_some() {
        options.add_option(key, label);
        assert(options@ =~= old(options)@.insert(key, label@));
    }
    target
}

/// Looks for somebody to talk to. The action `T`, "Talk", is open afterwards
/// exactly when a suspect stands next to the player; a suspect stands still
/// while it does, and may wander while it does not. Gives the suspect that a
/// conversation would be with: the last of those next to the player.
pub fn check_conversation(
    options: &mut Options,
    movers: &mut Vec<MovementAI>,
    places: &Vec<(i32, i32)>,
    x: i32,
    y: i32,
) -> (target: Option<usize>)
    requires
        old(movers).len() == places.len(),
    ensures
        final(options)@ == reopened(
            old(options)@,
            'T',
            "Talk"@,
            any_touches(places@, x as int, y as int),
        ),
        target.is_some() == any_touches(places@, x as int, y as int),
        match target {
            Some(i) => {
                &&& i < places.len()
                &&& touches(places@[i as int].0 as int, places@[i as int].1 as int, x as int, y as int)
                &&& forall|j: int|
                    i < j < places.len() ==> !touches(
                        (#[trigger] places@[j]).0 as int,
                        places@[j].1 as int,
                        x as int,
                        y as int,
                    )
            },
            None => true,
        },
        final(movers).len() == old(movers).len(),
        forall|i: int|
            0 <= i < places.len() ==> {
                &&& (#[trigger] final(movers)@[i]).is_idle == touches(
                    places@[i].0 as int,
                    places@[i].1 as int,
                    x as int,
                    y as int,
                )
                &&& final(movers)@[i].cooldown == old(movers)@[i].cooldown
                &&& final(movers)@[i].max_cooldown == old(movers)@[i].max_cooldown
            },
{
    let target = offer_nearby(options, 'T', "Talk", places, x, y);
    let mut i: usize = 0;
    while i < places.len()
        invariant
            i <= places.len(),
            movers.len() == places.len(),
            movers.len() == old(movers).len(),
            forall|j: int|
                0 <= j < i ==> {
                    &&& (#[trigger] movers@[j]).is_idle == touches(
                        places@[j].0 as int,
                        places@[j].1 as int,
                        x as int,
                        y as int,
                    )
                    &&& movers@[j].cooldown == old(movers)@[j].cooldown
                    &&& movers@[j].max_cooldown == old(movers)@[j].max_cooldown
                },
            forall|j: int| i <= j < places.len() ==> movers@[j] == old(movers)@[j],
        decreases places.len() - i,
    {
        let mover = movers[i];
        let near = is_adjacent(places[i].0, places[i].1, x, y);
        movers.set(
            i,
            MovementAI { is_idle: near, cooldown: mover.cooldown, max_cooldown: mover.max_cooldown },
        );
        i = i + 1;
    }
    target
}

/// Looks for something to examine. The action `X`, "Examine", is open
/// afterwards exactly when a clue lies next to the player. Gives the clue
/// that an examination would be of: the last of those next to the player.
pub fn check_examination(options: &mut Options, places: &Vec<(i32, i32)>, x: i32, y: i32) -> (target:
    Option<usize>)
    ensures
        final(options)@ == reopened(
            old(options)@,
            'X',
            "Examine"@,
            any_touches(places@, x as int, y as int),
        ),
        target.is_some() == any_touches(places@, x as int, y as int),
        match target {
            Some(i) => {
                &&& i < places.len()
                &&& touches(places@[i as int].0 as int, places@[i as int].1 as int, x as int, y as int)
                &&& forall|j: int|
                    i < j < places.len() ==> !touches(
                        (#[trigger] places@[j]).0 as int,
                        places@[j].1 as int,
                        x as int,
                        y as int,
                    )
            },
            None => true,
        },
{
    offer_nearby(options, 'X', "Examine", places, x, y)
}

/// Where the things of a story are put on the map: in a row, the first in
/// column 5 and each next one five columns further right.
pub fn lineup(count: usize, row: i32) -> (places: Vec<(i32, i32)>)
    requires
        5 * (count + 1) <= i32::MAX,
    ensures
        places.len() == count,
        forall|i: int| 0 <= i < count ==> #[trigger] places@[i] == ((5 + 5 * i) as i32, row),
{
    let mut places: Vec<(i32, i32)> = Vec::new();
    let mut x: i32 = 5;
    let mut i: usize = 0;
    while i < count
        invariant
            i <= count,
            5 * (count + 1) <= i32::MAX,
            x == 5 + 5 * i,
            places.len() == i,
            forall|j: int| 0 <= j < i ==> #[trigger] places@[j] == ((5 + 5 * j) as i32, row),
        decreases count - i,
    {
        places.push((x, row));
        x = x + 5;
        i = i + 1;
    }
    places
}

} // verus!
