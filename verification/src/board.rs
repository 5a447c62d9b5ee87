//! The board: walls, robots and target, and the moves that are legal on it.

use std::collections::HashMap;
use vstd::prelude::*;

use crate::error::GameError;
use crate::grid::{lemma_step, Direction, Tile};
use crate::maze::{
    center_walls, corner_walls, default_walls, lemma_default_walls_are_edges,
    lemma_paired_walls_step, lemma_single_walls_step,
    lemma_tables_sound, lemma_target_candidate, normal_walls, paired_walls, single_walls,
    spec_corner_walls, target_candidate,
};
use crate::model::{
    accepts, lemma_move_preserves_wf, lemma_moves_bounded, placement_valid, BoardView,
    NUM_ROBOTS,
};
use crate::wall::{lemma_edge_inside, lemma_key_injective, lemma_neighbours_make_edge, Wall};

verus! {

broadcast use vstd::std_specs::hash::group_hash_axioms;

/// A maze of walls with the robots that slide in it and the tile they are to
/// reach.
pub struct Board {
    robots: Vec<Tile>,
    robots_backup_positions: Vec<Tile>,
    walls: HashMap<usize, bool>,
    target: Tile,
    target_for_robot: usize,
}

impl View for Board {
    type V = BoardView;

    closed spec fn view(&self) -> BoardView {
        BoardView {
            robots: self.robots@,
            backup: self.robots_backup_positions@,
            walls: Set::new(
                |wall: Wall|
                    wall.spec_is_edge() && self.walls@.contains_key(wall.spec_key())
                        && self.walls@[wall.spec_key()],
            ),
            target: self.target,
            target_for_robot: self.target_for_robot,
        }
    }
}

/// The index of the first of `tiles` that equals `tile`, if there is one.
pub fn position(tiles: &Vec<Tile>, tile: Tile) -> (found: Option<usize>)
    ensures
        match found {
            Some(i) => i < tiles@.len() && tiles@[i as int] == tile && forall|j: int|
                0 <= j < i ==> tiles@[j] != tile,
            None => !tiles@.contains(tile),
        },
{
    let mut i: usize = 0;
    while i < tiles.len()
        invariant
            i <= tiles@.len(),
            forall|j: int| 0 <= j < i ==> tiles@[j] != tile,
        decreases tiles@.len() - i,
    {
        if tiles[i] == tile {
            return Some(i);
        }
        i += 1;
    }
    None
}

/// How often a random draw is tried before a placement or a choice of target
/// gives up.
pub const MAX_ATTEMPTS: usize = 1000;

impl Board {
    /// The invariant of a board; see [`BoardView::wf`].
    pub open spec fn wf(&self) -> bool {
        self@.wf()
    }

    /// A board without walls and without robots, with the target in the top left
    /// corner.
    pub fn new() -> (board: Board)
        ensures
            board@ == BoardView::empty(),
            board.wf(),
    {
        let board = Board {
            robots: Vec::new(),
            robots_backup_positions: Vec::new(),
            walls: HashMap::new(),
            target: Tile { x: 0, y: 0 },
            target_for_robot: 0,
        };
        assert(board@ =~= BoardView::empty());
        board
    }

    /// Where each robot stands.
    pub fn robots(&self) -> (robots: &Vec<Tile>)
        ensures
            robots@ == self@.robots,
    {
        &self.robots
    }

    /// Where each robot stood when the robots were last placed.
    pub fn robots_backup_positions(&self) -> (backup: &Vec<Tile>)
        ensures
            backup@ == self@.backup,
    {
        &self.robots_backup_positions
    }

    /// The tile the current round asks for.
    pub fn target(&self) -> (target: Tile)
        ensures
            target == self@.target,
    {
        self.target
    }

    /// Blocks the edge `wall`.
    pub fn add_wall(&mut self, wall: Wall)
        requires
            wall.spec_is_edge(),
        ensures
            final(self)@ == old(self)@.after_add_wall(wall),
            old(self).wf() ==> final(self).wf(),
    {
        let key = wall.key();
        self.walls.insert(key, true);
        proof {
            let before = old(self)@.after_add_wall(wall).walls;
            assert forall|other: Wall| before.contains(other) == self@.walls.contains(other) by {
                if other.spec_is_edge() && other.spec_key() == key {
                    lemma_key_injective(other, wall);
                }
            }
            assert(self@.walls =~= before);
        }
    }

    /// Adds the walls named by a table of single walls.
    fn add_single_walls(&mut self, table: &[(Tile, Direction); 8])
        requires
            forall|i: int|
                0 <= i < 8 ==> {
                    &&& (#[trigger] table@[i]).0.in_grid()
                    &&& table@[i].0.spec_towards(table@[i].1) is Some
                },
        ensures
            final(self)@ == (BoardView {
                walls: old(self)@.walls + single_walls(table@, 8),
                ..old(self)@
            }),
    {
        let mut i: usize = 0;
        proof {
            lemma_single_walls_step(table@, 0);
            assert(self@.walls =~= old(self)@.walls + single_walls(table@, 0));
        }
        while i < 8
            invariant
                i <= 8,
                table@.len() == 8,
                forall|i: int|
                    0 <= i < 8 ==> {
                        &&& (#[trigger] table@[i]).0.in_grid()
                        &&& table@[i].0.spec_towards(table@[i].1) is Some
                    },
                self@ == (BoardView {
                    walls: old(self)@.walls + single_walls(table@, i as int),
                    ..old(self)@
                }),
            decreases 8 - i,
        {
            let (tile, direction) = table[i];
            proof {
                assert(table@[i as int].0 == tile);
                lemma_neighbours_make_edge(tile, direction);
                lemma_single_walls_step(table@, i as int);
            }
            self.add_wall(tile.wall_on(direction));
            i += 1;
            proof {
                assert(self@.walls =~= old(self)@.walls + single_walls(table@, i as int));
            }
        }
    }

    /// Lays out the fixed maze: the walls round the centre box, the single walls
    /// on the rim, and the L-shaped obstacles. Walls that are there already
    /// stay.
    pub fn init_default(&mut self)
        ensures
            final(self)@ == (BoardView {
                walls: old(self)@.walls + default_walls(),
                ..old(self)@
            }),
            old(self).wf() ==> final(self).wf(),
    {
        proof {
            lemma_tables_sound();
            lemma_default_walls_are_edges();
        }
        // place the walls to form the box in the middle
        let center = center_walls();
        self.add_single_walls(&center);

        // place 8 normal walls
        let normal = normal_walls();
        self.add_single_walls(&normal);

        // place the corner walls
        let corners = corner_walls();
        let ghost start = self@;
        let mut i: usize = 0;
        proof {
            lemma_paired_walls_step(corners@, 0);
            assert(self@.walls =~= start.walls + paired_walls(corners@, 0));
        }
        while i < 17
            invariant
                i <= 17,
                corners@ == spec_corner_walls(),
                self@ == (BoardView {
                    walls: start.walls + paired_walls(corners@, i as int),
                    ..start
                }),
            decreases 17 - i,
        {
            let (tile, (dir1, dir2)) = corners[i];
            proof {
                lemma_tables_sound();
                assert(corners@[i as int].0 == tile);
                lemma_neighbours_make_edge(tile, dir1);
                lemma_neighbours_make_edge(tile, dir2);
                lemma_paired_walls_step(corners@, i as int);
            }
            self.add_wall(tile.wall_on(dir1));
            self.add_wall(tile.wall_on(dir2));
            i += 1;
            proof {
                assert(self@.walls =~= start.walls + paired_walls(corners@, i as int));
            }
        }
        proof {
            assert(self@.walls =~= old(self)@.walls + default_walls());
        }
    }

    /// Removes all robots and forgets their remembered positions.
    pub fn clear(&mut self)
        ensures
            final(self)@ == old(self)@.after_clear(),
            old(self).wf() ==> final(self).wf(),
    {
        self.robots.clear();
        self.robots_backup_positions.clear();
        proof {
            assert(self@ =~= old(self)@.after_clear());
        }
    }

    /// Puts every robot back where it stood when the robots were last placed.
    pub fn reset(&mut self)
        ensures
            final(self)@ == old(self)@.after_reset(),
            old(self).wf() ==> final(self).wf(),
    {
        self.robots = self.robots_backup_positions.clone();
        proof {
            assert(self@ =~= old(self)@.after_reset());
        }
    }

    /// Whether the side of `curr_tile` that faces `direction` cannot be crossed:
    /// there is a wall on it, or the grid ends there.
    pub fn has_wall(&self, curr_tile: Tile, direction: Direction) -> (blocked: bool)
        ensures
            blocked == self@.has_wall(curr_tile, direction),
            curr_tile.spec_towards(direction) is None ==> blocked,
    {
        let other_tile = if let Some(tile) = curr_tile.towards(direction) {
            tile
        } else {
            return true;
        };
        let wall = Wall::new(curr_tile, other_tile);
        if !curr_tile.in_grid() {
            proof {
                lemma_edge_inside(curr_tile, other_tile);
            }
            return false;
        }
        proof {
            lemma_neighbours_make_edge(curr_tile, direction);
        }
        let key = wall.key();
        match self.walls.get(&key) {
            Some(present) => *present,
            None => false,
        }
    }

    /// The index of the robot that stands on `tile`, if one does.
    pub fn has_robot(&self, tile: Tile) -> (robot: Option<usize>)
        ensures
            robot is Some <==> self@.robots.contains(tile),
            robot matches Some(i) ==> i < self@.robots.len() && self@.robots[i as int] == tile
                && forall|j: int| 0 <= j < i ==> self@.robots[j] != tile,
    {
        position(&self.robots, tile)
    }

    /// Whether `tile` lies in the forbidden 2 by 2 box at the centre.
    pub fn in_middle_box(&self, tile: Tile) -> (inside: bool)
        ensures
            inside == tile.in_middle_box(),
    {
        tile.in_middle_box()
    }

    /// Where a robot comes to rest when it slides from `from` in `direction`.
    ///
    /// Before each step the robot stops if the side it would cross is walled,
    /// or if the next tile holds a robot or lies in the centre box; it also stops
    /// at the rim of the grid.
    pub fn slide(&self, from: Tile, direction: Direction) -> (rest: Tile)
        ensures
            rest == self@.slide(from, direction),
    {
        let mut final_tile = from;
        loop
            invariant
                self@.slide(final_tile, direction) == self@.slide(from, direction),
            ensures
                final_tile == self@.slide(from, direction),
            decreases final_tile.room(direction),
        {
            let next_tile = if let Some(tile) = final_tile.towards(direction) {
                tile
            } else {
                break;
            };
            if self.has_wall(final_tile, direction) || self.has_robot(next_tile).is_some()
                || self.in_middle_box(next_tile) {
                break;
            }
            proof {
                lemma_step(final_tile, direction);
            }
            final_tile = next_tile;
        }
        final_tile
    }

    /// The tiles robot `robot` can slide to: one for each of the four directions
    /// in which it moves at all, in the order of [`Direction::all`].
    pub fn can_move_robot(&self, robot: usize) -> (moves: Result<Vec<Tile>, GameError>)
        ensures
            match moves {
                Ok(tiles) => robot < self@.robots.len() && tiles@ == self@.moves(robot as int),
                Err(e) => robot >= self@.robots.len() && e == GameError::RobotNotFound,
            },
            moves matches Ok(tiles) ==> tiles@.len() <= 4,
    {
        if robot >= self.robots.len() {
            return Err(GameError::RobotNotFound);
        }
        let curr_tile = self.robots[robot];
        let mut possible_tiles: Vec<Tile> = Vec::new();
        let directions = Direction::all();
        let mut i: usize = 0;
        proof {
            assert(directions@.take(0) =~= Seq::<Direction>::empty());
        }
        while i < 4
            invariant
                i <= 4,
                directions@ == Direction::spec_all(),
                possible_tiles@ == self@.moves_through(curr_tile, directions@.take(i as int)),
            decreases 4 - i,
        {
            let direction = directions[i];
            let final_tile = self.slide(curr_tile, direction);
            proof {
                let upto = directions@.take(i as int + 1);
                assert(upto.drop_last() =~= directions@.take(i as int));
                assert(upto.last() == direction);
            }
            if final_tile != curr_tile {
                possible_tiles.push(final_tile);
            }
            i += 1;
        }
        proof {
            assert(directions@.take(4) =~= directions@);
            lemma_moves_bounded(self@, curr_tile, directions@);
        }
        Ok(possible_tiles)
    }

    /// Moves robot `robot` to `tile` if it can slide there.
    ///
    /// An index without a robot and a tile the robot cannot slide to are
    /// refused, and the board stays as it was. The flag returned on success is
    /// reserved for a signal that the round is over, and is `false`.
    pub fn move_robot(&mut self, robot: usize, tile: Tile) -> (moved: Result<bool, GameError>)
        ensures
            robot >= old(self)@.robots.len() ==> moved == Err::<bool, GameError>(
                GameError::RobotNotFound,
            ),
            robot < old(self)@.robots.len() && !old(self)@.moves(robot as int).contains(tile)
                ==> moved == Err::<bool, GameError>(GameError::InvalidMove),
            robot < old(self)@.robots.len() && old(self)@.moves(robot as int).contains(tile)
                ==> moved == Ok::<bool, GameError>(false),
            moved is Err ==> final(self)@ == old(self)@,
            moved is Ok ==> final(self)@ == old(self)@.after_move(robot as int, tile),
            old(self).wf() ==> final(self).wf(),
    {
        // check if movement is valid
        let moves = match self.can_move_robot(robot) {
            Ok(moves) => moves,
            Err(e) => {
                return Err(e);
            },
        };
        if position(&moves, tile).is_none() {
            return Err(GameError::InvalidMove);
        }
        self.robots.set(robot, tile);
        proof {
            assert(self@ =~= old(self)@.after_move(robot as int, tile));
            if old(self).wf() {
                lemma_move_preserves_wf(old(self)@, robot as int, tile);
            }
        }
        Ok(false)
    }

    /// Offers `tile` as the place of the next robot: it is taken, and appended to
    /// `placed`, if it lies inside the grid, outside the centre box, and on none
    /// of the tiles in `placed`.
    pub fn offer_robot(placed: &mut Vec<Tile>, tile: Tile) -> (taken: bool)
        ensures
            taken == accepts(old(placed)@, tile),
            final(placed)@ == (if taken {
                old(placed)@.push(tile)
            } else {
                old(placed)@
            }),
            placement_valid(old(placed)@) ==> placement_valid(final(placed)@),
    {
        if !tile.in_grid() || tile.in_middle_box() || position(placed, tile).is_some() {
            return false;
        }
        placed.push(tile);
        proof {
            if placement_valid(old(placed)@) {
                assert forall|i: int, j: int| 0 <= i < j < placed@.len() implies placed@[i]
                    != placed@[j] by {
                    if j == placed@.len() - 1 {
                        assert(old(placed)@.contains(old(placed)@[i]));
                    }
                }
            }
        }
        true
    }

    /// Places the robots on `tiles`, in their order, and remembers where they
    /// stand.
    ///
    /// The tiles must be [`NUM_ROBOTS`] tiles on which robots may stand together
    /// (see [`placement_valid`]); otherwise the placement is refused and the board
    /// stays as it was.
    pub fn place_robots(&mut self, tiles: &Vec<Tile>) -> (placed: Result<(), GameError>)
        ensures
            placed is Ok <==> tiles@.len() == NUM_ROBOTS && placement_valid(tiles@),
            match placed {
                Ok(()) => final(self)@ == old(self)@.after_placement(tiles@),
                Err(e) => e == GameError::InternalInvariant && final(self)@ == old(self)@,
            },
            old(self).wf() ==> final(self).wf(),
    {
        if tiles.len() != NUM_ROBOTS {
            return Err(GameError::InternalInvariant);
        }
        let mut robots: Vec<Tile> = Vec::new();
        let mut i: usize = 0;
        while i < tiles.len()
            invariant
                i <= tiles@.len(),
                robots@ == tiles@.take(i as int),
                placement_valid(robots@),
            decreases tiles@.len() - i,
        {
            let tile = tiles[i];
            if !Board::offer_robot(&mut robots, tile) {
                proof {
                    if placement_valid(tiles@) {
                        if tile.in_grid() && !tile.in_middle_box() {
                            let j = choose|j: int| 0 <= j < i && tiles@.take(i as int)[j] == tile;
                            assert(tiles@[j] == tiles@[i as int]);
                        }
                    }
                }
                return Err(GameError::InternalInvariant);
            }
            i += 1;
            proof {
                assert(robots@ =~= tiles@.take(i as int));
            }
        }
        proof {
            assert(tiles@.take(i as int) =~= tiles@);
        }
        self.robots_backup_positions = robots.clone();
        self.robots = robots;
        proof {
            assert(self@ =~= old(self)@.after_placement(tiles@));
        }
        Ok(())
    }

    /// Places the robots afresh on random tiles and remembers where they stand.
    ///
    /// Tiles are drawn until [`NUM_ROBOTS`] of them have been taken by
    /// [`Board::offer_robot`]; the order in which they are taken is the order of
    /// the robots. After [`MAX_ATTEMPTS`] draws the placement is given up and the
    /// board stays as it was.
    pub fn init_robots(&mut self) -> (placed: Result<(), GameError>)
        ensures
            match placed {
                Ok(()) => {
                    &&& final(self)@ == old(self)@.after_placement(final(self)@.robots)
                    &&& final(self)@.robots.len() == NUM_ROBOTS
                    &&& placement_valid(final(self)@.robots)
                },
                Err(e) => e == GameError::InternalInvariant && final(self)@ == old(self)@,
            },
            old(self).wf() ==> final(self).wf(),
    {
        let mut occupied: Vec<Tile> = Vec::new();
        let mut attempts: usize = 0;
        while occupied.len() < NUM_ROBOTS && attempts < MAX_ATTEMPTS
            invariant
                occupied@.len() <= NUM_ROBOTS,
                attempts <= MAX_ATTEMPTS,
                placement_valid(occupied@),
            decreases MAX_ATTEMPTS - attempts,
        {
            let tile = Tile::new_random();
            Board::offer_robot(&mut occupied, tile);
            attempts += 1;
        }
        self.place_robots(&occupied)
    }

    /// Makes the tile that `draw` selects the target, unless a robot stands on
    /// it. The draw selects the tile of entry `draw % 17` of the table of L-shaped
    /// obstacles.
    pub fn select_target(&mut self, draw: usize) -> (selected: bool)
        ensures
            selected == !old(self)@.robots.contains(target_candidate(draw)),
            final(self)@ == (if selected {
                old(self)@.after_target(target_candidate(draw))
            } else {
                old(self)@
            }),
            old(self).wf() ==> final(self).wf(),
    {
        let corners = corner_walls();
        let pos = draw % corners.len();
        let tile = corners[pos].0;
        proof {
            lemma_target_candidate(draw);
        }
        if self.has_robot(tile).is_none() {
            self.target = tile;
            proof {
                assert(self@ =~= old(self)@.after_target(tile));
            }
            true
        } else {
            false
        }
    }
}

} // verus!
