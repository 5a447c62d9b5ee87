//! The fixed maze: the walls every board starts with, and the tiles a round's
//! target is drawn from.

use vstd::prelude::*;

use crate::grid::{Direction, Tile};
use crate::wall::{lemma_neighbours_make_edge, Wall};

verus! {

/// Number of L-shaped obstacles in the maze.
pub const NUM_CORNERS: usize = 17;

/// The eight walls that close off the box at the centre of the grid, each given
/// by a tile and the side of it that is walled.
pub open spec fn spec_center_walls() -> Seq<(Tile, Direction)> {
    seq![
        (Tile { x: 6, y: 7 }, Direction::Right),
        (Tile { x: 8, y: 7 }, Direction::Right),
        (Tile { x: 6, y: 8 }, Direction::Right),
        (Tile { x: 8, y: 8 }, Direction::Right),
        (Tile { x: 7, y: 6 }, Direction::Down),
        (Tile { x: 7, y: 8 }, Direction::Down),
        (Tile { x: 8, y: 6 }, Direction::Down),
        (Tile { x: 8, y: 8 }, Direction::Down),
    ]
}

/// The eight walls that close off the box at the centre of the grid.
pub fn center_walls() -> (table: [(Tile, Direction); 8])
    ensures
        table@ == spec_center_walls(),
{
    [
        (Tile { x: 6, y: 7 }, Direction::Right),
        (Tile { x: 8, y: 7 }, Direction::Right),
        (Tile { x: 6, y: 8 }, Direction::Right),
        (Tile { x: 8, y: 8 }, Direction::Right),
        (Tile { x: 7, y: 6 }, Direction::Down),
        (Tile { x: 7, y: 8 }, Direction::Down),
        (Tile { x: 8, y: 6 }, Direction::Down),
        (Tile { x: 8, y: 8 }, Direction::Down),
    ]
}

/// The eight single walls that stand on the rim of the grid, two on each side:
/// top, bottom, left, right.
pub open spec fn spec_normal_walls() -> Seq<(Tile, Direction)> {
    seq![
        (Tile { x: 4, y: 0 }, Direction::Right),
        (Tile { x: 12, y: 0 }, Direction::Left),
        (Tile { x: 6, y: 15 }, Direction::Right),
        (Tile { x: 11, y: 15 }, Direction::Left),
        (Tile { x: 0, y: 6 }, Direction::Down),
        (Tile { x: 0, y: 12 }, Direction::Up),
        (Tile { x: 15, y: 4 }, Direction::Down),
        (Tile { x: 15, y: 11 }, Direction::Up),
    ]
}

/// The eight single walls that stand on the rim of the grid.
pub fn normal_walls() -> (table: [(Tile, Direction); 8])
    ensures
        table@ == spec_normal_walls(),
{
    [
        (Tile { x: 4, y: 0 }, Direction::Right),
        (Tile { x: 12, y: 0 }, Direction::Left),
        (Tile { x: 6, y: 15 }, Direction::Right),
        (Tile { x: 11, y: 15 }, Direction::Left),
        (Tile { x: 0, y: 6 }, Direction::Down),
        (Tile { x: 0, y: 12 }, Direction::Up),
        (Tile { x: 15, y: 4 }, Direction::Down),
        (Tile { x: 15, y: 11 }, Direction::Up),
    ]
}

/// The L-shaped obstacles: a tile and the two sides of it that are walled. The
/// tiles of this table are also the tiles a target may be placed on.
//
//   0 1 2 3 4 5 6 7 8 9 A B C D E F
// 0 . . . . .|. . . . . . .|. _ . .
// 1 . _ . . . . _|. . . . . .|. . .
// 2 .|. . . . . . . . _|. . . . . .
// 3 . . . . . . . . . . . . . . . _
// 4 . . . . . . _ . . . . . . . . .
// 5 _ . . . . . .|. . . . _ . .|_ .
// 6 . . .|_ . . . . . . . .|. . . .
// 7 . . . . . . . x x . . . _ . . .
// 8 . . _ . .|_ . x x . . .|. . . .
// 9 . .|. . . . . . . .|_ . . . . .
// A . . . . . . . . . . . . . . . _
// B _ . . . . . . . . _|. . . . _ .
// C . . . . _ . . . . . . . . . .|.
// D . . . . .|. . . . . . . . _ . .
// E . _|. . . . . . . . . . .|. . .
// F . . . . . .|. . . . .|. . . . .
pub open spec fn spec_corner_walls() -> Seq<(Tile, (Direction, Direction))> {
    seq![
        (Tile { x: 1, y: 2 }, (Direction::Up, Direction::Left)),
        (Tile { x: 12, y: 8 }, (Direction::Up, Direction::Left)),
        (Tile { x: 2, y: 9 }, (Direction::Up, Direction::Left)),
        (Tile { x: 13, y: 14 }, (Direction::Up, Direction::Left)),
        (Tile { x: 13, y: 1 }, (Direction::Up, Direction::Left)),
        (Tile { x: 6, y: 5 }, (Direction::Up, Direction::Right)),
        (Tile { x: 4, y: 13 }, (Direction::Up, Direction::Right)),
        (Tile { x: 14, y: 12 }, (Direction::Up, Direction::Right)),
        (Tile { x: 11, y: 6 }, (Direction::Up, Direction::Right)),
        (Tile { x: 6, y: 1 }, (Direction::Down, Direction::Right)),
        (Tile { x: 9, y: 2 }, (Direction::Down, Direction::Right)),
        (Tile { x: 9, y: 11 }, (Direction::Down, Direction::Right)),
        (Tile { x: 1, y: 14 }, (Direction::Down, Direction::Right)),
        (Tile { x: 3, y: 6 }, (Direction::Down, Direction::Left)),
        (Tile { x: 14, y: 5 }, (Direction::Down, Direction::Left)),
        (Tile { x: 10, y: 9 }, (Direction::Down, Direction::Left)),
        (Tile { x: 5, y: 8 }, (Direction::Down, Direction::Left)),
    ]
}

/// The L-shaped obstacles: a tile and the two sides of it that are walled.
pub fn corner_walls() -> (table: [(Tile, (Direction, Direction)); 17])
    ensures
        table@ == spec_corner_walls(),
{
    [
        (Tile { x: 1, y: 2 }, (Direction::Up, Direction::Left)),
        (Tile { x: 12, y: 8 }, (Direction::Up, Direction::Left)),
        (Tile { x: 2, y: 9 }, (Direction::Up, Direction::Left)),
        (Tile { x: 13, y: 14 }, (Direction::Up, Direction::Left)),
        (Tile { x: 13, y: 1 }, (Direction::Up, Direction::Left)),
        (Tile { x: 6, y: 5 }, (Direction::Up, Direction::Right)),
        (Tile { x: 4, y: 13 }, (Direction::Up, Direction::Right)),
        (Tile { x: 14, y: 12 }, (Direction::Up, Direction::Right)),
        (Tile { x: 11, y: 6 }, (Direction::Up, Direction::Right)),
        (Tile { x: 6, y: 1 }, (Direction::Down, Direction::Right)),
        (Tile { x: 9, y: 2 }, (Direction::Down, Direction::Right)),
        (Tile { x: 9, y: 11 }, (Direction::Down, Direction::Right)),
        (Tile { x: 1, y: 14 }, (Direction::Down, Direction::Right)),
        (Tile { x: 3, y: 6 }, (Direction::Down, Direction::Left)),
        (Tile { x: 14, y: 5 }, (Direction::Down, Direction::Left)),
        (Tile { x: 10, y: 9 }, (Direction::Down, Direction::Left)),
        (Tile { x: 5, y: 8 }, (Direction::Down, Direction::Left)),
    ]
}

/// The walls named by the first `n` entries of a table of single walls.
pub open spec fn single_walls(table: Seq<(Tile, Direction)>, n: int) -> Set<Wall> {
    Set::new(
        |wall: Wall|
            exists|i: int|
                0 <= i < n && i < table.len() && wall == (#[trigger] table[i]).0.spec_wall_on(
                    table[i].1,
                ),
    )
}

/// The walls named by the first `n` entries of a table of L-shaped obstacles.
pub open spec fn paired_walls(table: Seq<(Tile, (Direction, Direction))>, n: int) -> Set<Wall> {
    Set::new(
        |wall: Wall|
            exists|i: int|
                0 <= i < n && i < table.len() && {
                    ||| wall == (#[trigger] table[i]).0.spec_wall_on(table[i].1.0)
                    ||| wall == table[i].0.spec_wall_on(table[i].1.1)
                },
    )
}

/// Every wall of the fixed maze.
pub open spec fn default_walls() -> Set<Wall> {
    single_walls(spec_center_walls(), 8) + single_walls(spec_normal_walls(), 8) + paired_walls(
        spec_corner_walls(),
        17,
    )
}

/// The tile that a raw draw selects as the next target: the draw picks an entry
/// of the table of L-shaped obstacles.
pub open spec fn target_candidate(draw: usize) -> Tile {
    spec_corner_walls()[(draw % NUM_CORNERS) as int].0
}

/// The tile is one of those a target may be placed on.
pub open spec fn is_target_tile(tile: Tile) -> bool {
    exists|i: int| 0 <= i < NUM_CORNERS && (#[trigger] spec_corner_walls()[i]).0 == tile
}

/// A table of single walls names only sides on which the tile has a neighbour
/// inside the grid.
pub open spec fn single_table_sound(table: Seq<(Tile, Direction)>) -> bool {
    forall|i: int|
        0 <= i < table.len() ==> {
            &&& (#[trigger] table[i]).0.in_grid()
            &&& table[i].0.spec_towards(table[i].1) is Some
        }
}

/// A table of L-shaped obstacles names only tiles outside the centre box, and
/// sides on which the tile has a neighbour inside the grid.
pub open spec fn paired_table_sound(table: Seq<(Tile, (Direction, Direction))>) -> bool {
    forall|i: int|
        0 <= i < table.len() ==> {
            &&& (#[trigger] table[i]).0.in_grid()
            &&& !table[i].0.in_middle_box()
            &&& table[i].0.spec_towards(table[i].1.0) is Some
            &&& table[i].0.spec_towards(table[i].1.1) is Some
        }
}

/// The three tables of the maze are sound.
pub proof fn lemma_tables_sound()
    ensures
        spec_center_walls().len() == 8,
        spec_normal_walls().len() == 8,
        spec_corner_walls().len() == NUM_CORNERS,
        single_table_sound(spec_center_walls()),
        single_table_sound(spec_normal_walls()),
        paired_table_sound(spec_corner_walls()),
{
}

/// No entry gives no wall, and each further entry of a table of single walls
/// adds the wall it names.
pub proof fn lemma_single_walls_step(table: Seq<(Tile, Direction)>, n: int)
    requires
        0 <= n < table.len(),
    ensures
        single_walls(table, 0) == Set::<Wall>::empty(),
        single_walls(table, n + 1) == single_walls(table, n).insert(
            table[n].0.spec_wall_on(table[n].1),
        ),
{
    assert(single_walls(table, 0) =~= Set::<Wall>::empty());
    let wall = table[n].0.spec_wall_on(table[n].1);
    assert(single_walls(table, n + 1) =~= single_walls(table, n).insert(wall));
}

/// No entry gives no wall, and each further entry of a table of L-shaped
/// obstacles adds the two walls it names.
pub proof fn lemma_paired_walls_step(table: Seq<(Tile, (Direction, Direction))>, n: int)
    requires
        0 <= n < table.len(),
    ensures
        paired_walls(table, 0) == Set::<Wall>::empty(),
        paired_walls(table, n + 1) == paired_walls(table, n).insert(
            table[n].0.spec_wall_on(table[n].1.0),
        ).insert(table[n].0.spec_wall_on(table[n].1.1)),
{
    assert(paired_walls(table, 0) =~= Set::<Wall>::empty());
    let first = table[n].0.spec_wall_on(table[n].1.0);
    let second = table[n].0.spec_wall_on(table[n].1.1);
    assert(paired_walls(table, n + 1) =~= paired_walls(table, n).insert(first).insert(second));
}

/// Every wall of the fixed maze lies on an edge of the grid.
pub proof fn lemma_default_walls_are_edges()
    ensures
        forall|wall: Wall| default_walls().contains(wall) ==> wall.spec_is_edge(),
{
    lemma_tables_sound();
    assert forall|wall: Wall| default_walls().contains(wall) implies wall.spec_is_edge() by {
        if single_walls(spec_center_walls(), 8).contains(wall) {
            let table = spec_center_walls();
            let i = choose|i: int|
                0 <= i < 8 && i < table.len() && wall == (#[trigger] table[i]).0.spec_wall_on(
                    table[i].1,
                );
            lemma_neighbours_make_edge(table[i].0, table[i].1);
        } else if single_walls(spec_normal_walls(), 8).contains(wall) {
            let table = spec_normal_walls();
            let i = choose|i: int|
                0 <= i < 8 && i < table.len() && wall == (#[trigger] table[i]).0.spec_wall_on(
                    table[i].1,
                );
            lemma_neighbours_make_edge(table[i].0, table[i].1);
        } else {
            let table = spec_corner_walls();
            let i = choose|i: int|
                0 <= i < 17 && i < table.len() && {
                    ||| wall == (#[trigger] table[i]).0.spec_wall_on(table[i].1.0)
                    ||| wall == table[i].0.spec_wall_on(table[i].1.1)
                };
            lemma_neighbours_make_edge(table[i].0, table[i].1.0);
            lemma_neighbours_make_edge(table[i].0, table[i].1.1);
        }
    }
}

/// Every tile a draw can select is a tile a target may be placed on: inside the
/// grid and outside the centre box.
pub proof fn lemma_target_candidate(draw: usize)
    ensures
        is_target_tile(target_candidate(draw)),
        target_candidate(draw).in_grid(),
        !target_candidate(draw).in_middle_box(),
{
    lemma_tables_sound();
    let i = (draw % NUM_CORNERS) as int;
    assert(spec_corner_walls()[i].0 == target_candidate(draw));
}

} // verus!
