//! The mathematical model of a board, the rule by which robots slide on it, and
//! the laws that follow from that rule.

use vstd::prelude::*;

use crate::grid::{lemma_step, lemma_step_back, Direction, Tile, SIZE};
use crate::wall::{lemma_wall_symmetric, Wall};

verus! {

/// Number of robots on a board once a game has started.
pub const NUM_ROBOTS: usize = 4;

/// What a board is, as plain mathematics.
#[verifier::ext_equal]
pub struct BoardView {
    /// Where each robot stands; the index of a robot is its identity.
    pub robots: Seq<Tile>,
    /// Where each robot stood when the robots were last placed.
    pub backup: Seq<Tile>,
    /// The blocked edges.
    pub walls: Set<Wall>,
    /// The tile the current round asks for.
    pub target: Tile,
    /// Reserved; no rule reads or changes it.
    pub target_for_robot: usize,
}

/// Robots may stand like this: inside the grid, outside the centre box, and no
/// two on one tile.
pub open spec fn placement_valid(robots: Seq<Tile>) -> bool {
    &&& forall|i: int|
        0 <= i < robots.len() ==> (#[trigger] robots[i]).in_grid() && !robots[i].in_middle_box()
    &&& forall|i: int, j: int| 0 <= i < j < robots.len() ==> robots[i] != robots[j]
}

/// A robot may be put on `tile` when the robots in `placed` stand already: the
/// tile is inside the grid, outside the centre box, and free.
pub open spec fn accepts(placed: Seq<Tile>, tile: Tile) -> bool {
    tile.in_grid() && !tile.in_middle_box() && !placed.contains(tile)
}

impl BoardView {
    /// The board before anything has been put on it: no walls, no robots, the
    /// target in the top left corner.
    pub open spec fn empty() -> BoardView {
        BoardView {
            robots: Seq::empty(),
            backup: Seq::empty(),
            walls: Set::empty(),
            target: Tile { x: 0, y: 0 },
            target_for_robot: 0,
        }
    }

    /// The invariant of a board: no robots yet or all of them, each with a
    /// remembered position; robots and target on tiles they may stand on; walls
    /// only on edges of the grid.
    pub open spec fn wf(self) -> bool {
        &&& (self.robots.len() == 0 || self.robots.len() == NUM_ROBOTS)
        &&& self.backup.len() == self.robots.len()
        &&& placement_valid(self.robots)
        &&& placement_valid(self.backup)
        &&& self.target.in_grid()
        &&& !self.target.in_middle_box()
        &&& forall|wall: Wall| self.walls.contains(wall) ==> wall.spec_is_edge()
    }

    /// The side of `tile` that faces `direction` cannot be crossed: there is a
    /// wall on it, or the grid ends there.
    pub open spec fn has_wall(self, tile: Tile, direction: Direction) -> bool {
        match tile.spec_towards(direction) {
            None => true,
            Some(next) => self.walls.contains(Wall::between(tile, next)),
        }
    }

    /// A robot standing on `tile` cannot take one step in `direction`: the side
    /// it would cross is walled or is the rim of the grid, or the tile it would
    /// enter holds a robot or lies in the centre box.
    pub open spec fn step_blocked(self, tile: Tile, direction: Direction) -> bool {
        match tile.spec_towards(direction) {
            None => true,
            Some(next) => self.walls.contains(Wall::between(tile, next)) || self.robots.contains(
                next,
            ) || next.in_middle_box(),
        }
    }

    /// Where a robot comes to rest when it slides from `from` in `direction`: it
    /// keeps stepping until a step is blocked.
    pub open spec fn slide(self, from: Tile, direction: Direction) -> Tile
        decreases from.room(direction),
    {
        if self.step_blocked(from, direction) {
            from
        } else {
            self.slide(from.spec_towards(direction).unwrap(), direction)
        }
    }

    /// The destinations a robot standing on `from` has in the given directions, in
    /// their order. A direction in which the robot cannot move gives none.
    pub open spec fn moves_through(self, from: Tile, directions: Seq<Direction>) -> Seq<Tile>
        decreases directions.len(),
    {
        if directions.len() == 0 {
            Seq::empty()
        } else {
            let before = self.moves_through(from, directions.drop_last());
            let rest = self.slide(from, directions.last());
            if rest == from {
                before
            } else {
                before.push(rest)
            }
        }
    }

    /// The legal destinations of robot `robot`, for `0 <= robot < robots.len()`.
    pub open spec fn moves(self, robot: int) -> Seq<Tile> {
        self.moves_through(self.robots[robot], Direction::spec_all())
    }

    /// The board after robot `robot` has been put on `tile`.
    pub open spec fn after_move(self, robot: int, tile: Tile) -> BoardView {
        BoardView { robots: self.robots.update(robot, tile), ..self }
    }

    /// The board after every robot has returned to its remembered position.
    pub open spec fn after_reset(self) -> BoardView {
        BoardView { robots: self.backup, ..self }
    }

    /// The board after all robots and remembered positions have been removed.
    pub open spec fn after_clear(self) -> BoardView {
        BoardView { robots: Seq::empty(), backup: Seq::empty(), ..self }
    }

    /// The board after `wall` has been added.
    pub open spec fn after_add_wall(self, wall: Wall) -> BoardView {
        BoardView { walls: self.walls.insert(wall), ..self }
    }

    /// The board after the robots have been placed on `robots`.
    pub open spec fn after_placement(self, robots: Seq<Tile>) -> BoardView {
        BoardView { robots: robots, backup: robots, ..self }
    }

    /// The board after `target` has become the target.
    pub open spec fn after_target(self, target: Tile) -> BoardView {
        BoardView { target: target, ..self }
    }

    /// Each of `moves`, a robot and a tile, is legal on the board that the moves
    /// before it have led to.
    pub open spec fn moves_legal(self, moves: Seq<(int, Tile)>) -> bool
        decreases moves.len(),
    {
        if moves.len() == 0 {
            true
        } else {
            let before = self.after_moves(moves.drop_last());
            let (robot, tile) = moves.last();
            &&& self.moves_legal(moves.drop_last())
            &&& 0 <= robot < before.robots.len()
            &&& before.moves(robot).contains(tile)
        }
    }

    /// The board after `moves` have been made one after the other.
    pub open spec fn after_moves(self, moves: Seq<(int, Tile)>) -> BoardView
        decreases moves.len(),
    {
        if moves.len() == 0 {
            self
        } else {
            self.after_moves(moves.drop_last()).after_move(moves.last().0, moves.last().1)
        }
    }
}

/// A wall seen from one side is seen from the other: of two neighbouring tiles
/// inside the grid, each has the wall on the side that faces the other, or
/// neither has.
pub proof fn lemma_wall_lookup_symmetric(board: BoardView, tile: Tile, direction: Direction)
    requires
        tile.in_grid(),
        tile.spec_towards(direction) is Some,
    ensures
        board.has_wall(tile, direction) == board.has_wall(
            tile.spec_towards(direction).unwrap(),
            direction.reverse(),
        ),
{
    let next = tile.spec_towards(direction).unwrap();
    lemma_step_back(tile, direction);
    lemma_wall_symmetric(tile, next);
}

/// A wall added from one side is found from the other side: once the wall
/// between two neighbouring tiles has been added, named from either of them,
/// each of the two has a wall on the side that faces the other.
pub proof fn lemma_added_wall_blocks_both_sides(board: BoardView, tile: Tile, direction: Direction)
    requires
        tile.in_grid(),
        tile.spec_towards(direction) is Some,
    ensures
        ({
            let next = tile.spec_towards(direction).unwrap();
            let from_here = board.after_add_wall(Wall::between(tile, next));
            let from_there = board.after_add_wall(Wall::between(next, tile));
            &&& from_here == from_there
            &&& from_here.has_wall(tile, direction)
            &&& from_here.has_wall(next, direction.reverse())
        }),
{
    let next = tile.spec_towards(direction).unwrap();
    lemma_step_back(tile, direction);
    lemma_wall_symmetric(tile, next);
}

/// The rim of the grid blocks: where a step would leave the grid, the side is
/// reported as walled whatever walls the board holds, and a slide that way does
/// not move.
pub proof fn lemma_rim_blocks(board: BoardView, tile: Tile, direction: Direction)
    requires
        tile.spec_towards(direction) is None,
    ensures
        board.has_wall(tile, direction),
        board.step_blocked(tile, direction),
        board.slide(tile, direction) == tile,
{
}

/// On the rim of the grid, the direction that leaves the grid is blocked.
pub proof fn lemma_rim_directions(board: BoardView, tile: Tile)
    requires
        tile.in_grid(),
    ensures
        tile.y == 0 ==> board.has_wall(tile, Direction::Up),
        tile.y == SIZE - 1 ==> board.has_wall(tile, Direction::Down),
        tile.x == 0 ==> board.has_wall(tile, Direction::Left),
        tile.x == SIZE - 1 ==> board.has_wall(tile, Direction::Right),
{
}

/// A robot whose first step is blocked stays where it is.
pub proof fn lemma_slide_blocked_at_once(board: BoardView, from: Tile, direction: Direction)
    requires
        board.step_blocked(from, direction),
    ensures
        board.slide(from, direction) == from,
        board.moves_through(from, seq![direction]) == Seq::<Tile>::empty(),
{
    assert(seq![direction].drop_last() =~= Seq::<Direction>::empty());
    assert(board.moves_through(from, Seq::<Direction>::empty()) == Seq::<Tile>::empty());
}

/// A wall on the side a robot faces keeps it from moving that way.
pub proof fn lemma_wall_stops_slide(board: BoardView, from: Tile, direction: Direction)
    requires
        board.has_wall(from, direction),
    ensures
        board.slide(from, direction) == from,
{
}

/// A slide ends on the first tile from which the next step is blocked: if the
/// robot can step `steps` times and is blocked after that, it rests `steps`
/// tiles away.
pub proof fn lemma_slide_runs_to_first_block(
    board: BoardView,
    from: Tile,
    direction: Direction,
    steps: nat,
)
    requires
        steps <= from.room(direction),
        forall|k: nat|
            k < steps ==> !board.step_blocked(#[trigger] from.shifted(direction, k), direction),
        board.step_blocked(from.shifted(direction, steps), direction),
    ensures
        board.slide(from, direction) == from.shifted(direction, steps),
    decreases steps,
{
    assert(from.shifted(direction, 0) == from);
    if steps > 0 {
        assert(!board.step_blocked(from.shifted(direction, 0), direction));
        lemma_step(from, direction);
        let next = from.spec_towards(direction).unwrap();
        assert forall|k: nat| k < (steps - 1) as nat implies !board.step_blocked(
            #[trigger] next.shifted(direction, k),
            direction,
        ) by {
            assert(next.shifted(direction, k) == from.shifted(direction, k + 1));
        }
        assert(next.shifted(direction, (steps - 1) as nat) == from.shifted(direction, steps));
        lemma_slide_runs_to_first_block(board, next, direction, (steps - 1) as nat);
    }
}

/// The other way round: a slide rests some number of steps away, every step up
/// to there was free, and the next one is blocked.
pub proof fn lemma_slide_rests_at_block(
    board: BoardView,
    from: Tile,
    direction: Direction,
) -> (steps: nat)
    ensures
        steps <= from.room(direction),
        board.slide(from, direction) == from.shifted(direction, steps),
        forall|k: nat|
            k < steps ==> !board.step_blocked(#[trigger] from.shifted(direction, k), direction),
        board.step_blocked(board.slide(from, direction), direction),
    decreases from.room(direction),
{
    assert(from.shifted(direction, 0) == from);
    if board.step_blocked(from, direction) {
        0
    } else {
        lemma_step(from, direction);
        let next = from.spec_towards(direction).unwrap();
        let rest = lemma_slide_rests_at_block(board, next, direction);
        let steps = rest + 1;
        assert(next.shifted(direction, rest) == from.shifted(direction, steps));
        assert forall|k: nat| k < steps implies !board.step_blocked(
            #[trigger] from.shifted(direction, k),
            direction,
        ) by {
            if k > 0 {
                assert(next.shifted(direction, (k - 1) as nat) == from.shifted(direction, k));
            }
        }
        steps
    }
}

/// With nothing in its way a robot that slides to the right ends in the last
/// column of its row.
pub proof fn lemma_free_slide_right_reaches_rim(board: BoardView, from: Tile)
    requires
        from.in_grid(),
        forall|x: int|
            from.x <= x < SIZE - 1 ==> !#[trigger] board.step_blocked(
                Tile { x: x as usize, y: from.y },
                Direction::Right,
            ),
    ensures
        board.slide(from, Direction::Right) == (Tile { x: (SIZE - 1) as usize, y: from.y }),
{
    let steps = (SIZE - 1 - from.x) as nat;
    assert forall|k: nat| k < steps implies !board.step_blocked(
        #[trigger] from.shifted(Direction::Right, k),
        Direction::Right,
    ) by {
        let x = from.x + k;
        assert(from.shifted(Direction::Right, k) == Tile { x: x as usize, y: from.y });
    }
    lemma_slide_runs_to_first_block(board, from, Direction::Right, steps);
}

/// A robot with nothing in its way to the right has the last tile of its row
/// among its destinations.
pub proof fn lemma_free_robot_reaches_right_rim(board: BoardView, robot: int)
    requires
        0 <= robot < board.robots.len(),
        board.robots[robot].in_grid(),
        board.robots[robot].x < SIZE - 1,
        forall|x: int|
            board.robots[robot].x <= x < SIZE - 1 ==> !#[trigger] board.step_blocked(
                Tile { x: x as usize, y: board.robots[robot].y },
                Direction::Right,
            ),
    ensures
        board.moves(robot).contains(Tile { x: (SIZE - 1) as usize, y: board.robots[robot].y }),
{
    let from = board.robots[robot];
    lemma_free_slide_right_reaches_rim(board, from);
    lemma_moves_are_slides(board, robot, board.slide(from, Direction::Right));
}

/// A robot that faces a wall has no destination on that side: none of the tiles
/// that lie in that direction is among its destinations.
pub proof fn lemma_walled_side_gives_no_destination(
    board: BoardView,
    robot: int,
    direction: Direction,
)
    requires
        0 <= robot < board.robots.len(),
        board.has_wall(board.robots[robot], direction),
    ensures
        forall|steps: nat|
            0 < steps <= board.robots[robot].room(direction) ==> !board.moves(robot).contains(
                #[trigger] board.robots[robot].shifted(direction, steps),
            ),
{
    let from = board.robots[robot];
    assert forall|steps: nat| 0 < steps <= from.room(direction) implies !board.moves(
        robot,
    ).contains(#[trigger] from.shifted(direction, steps)) by {
        let tile = from.shifted(direction, steps);
        lemma_moves_are_slides(board, robot, tile);
        if board.moves(robot).contains(tile) {
            let other = choose|other: Direction| #[trigger] board.slide(from, other) == tile;
            lemma_slide_rests_at_block(board, from, other);
            assert(other != direction);
        }
    }
}

/// A robot that moved has come to rest on a tile that no robot holds and that
/// is not in the centre box; and it has not left the grid.
pub proof fn lemma_slide_rests_on_free_tile(board: BoardView, from: Tile, direction: Direction)
    ensures
        board.slide(from, direction) != from ==> {
            &&& !board.robots.contains(board.slide(from, direction))
            &&& !board.slide(from, direction).in_middle_box()
        },
        from.in_grid() ==> board.slide(from, direction).in_grid(),
    decreases from.room(direction),
{
    if !board.step_blocked(from, direction) {
        lemma_step(from, direction);
        let next = from.spec_towards(direction).unwrap();
        lemma_slide_rests_on_free_tile(board, next, direction);
    }
}

/// The destinations in a list of directions are exactly the resting tiles of
/// the slides in those directions that move the robot.
pub proof fn lemma_moves_through_contains(
    board: BoardView,
    from: Tile,
    directions: Seq<Direction>,
    tile: Tile,
)
    ensures
        board.moves_through(from, directions).contains(tile) <==> (tile != from && exists|
            i: int,
        |
            0 <= i < directions.len() && board.slide(from, #[trigger] directions[i]) == tile),
    decreases directions.len(),
{
    if directions.len() == 0 {
        assert(!Seq::<Tile>::empty().contains(tile));
    } else {
        let front = directions.drop_last();
        let before = board.moves_through(from, front);
        let rest = board.slide(from, directions.last());
        lemma_moves_through_contains(board, from, front, tile);
        let found = board.moves_through(from, directions);
        if found.contains(tile) {
            if rest != from && tile == rest {
                assert(board.slide(from, directions[directions.len() - 1]) == tile);
            } else {
                if rest != from {
                    let j = choose|j: int| 0 <= j < found.len() && found[j] == tile;
                    assert(j < before.len());
                    assert(before[j] == tile);
                }
                assert(before.contains(tile));
                let i = choose|i: int|
                    0 <= i < front.len() && board.slide(from, #[trigger] front[i]) == tile;
                assert(board.slide(from, directions[i]) == tile);
            }
        }
        if tile != from && exists|i: int|
            0 <= i < directions.len() && board.slide(from, #[trigger] directions[i]) == tile {
            let i = choose|i: int|
                0 <= i < directions.len() && board.slide(from, #[trigger] directions[i]) == tile;
            if i < front.len() {
                assert(board.slide(from, front[i]) == tile);
                assert(before.contains(tile));
                let j = choose|j: int| 0 <= j < before.len() && before[j] == tile;
                assert(found[j] == tile);
            } else {
                assert(rest == tile);
                assert(found == before.push(rest));
                assert(found[before.len() as int] == tile);
            }
        }
    }
}

/// A tile is a legal destination of a robot exactly if it differs from where the
/// robot stands and the robot comes to rest on it when sliding in one of the four
/// directions.
pub proof fn lemma_moves_are_slides(board: BoardView, robot: int, tile: Tile)
    ensures
        board.moves(robot).contains(tile) <==> (tile != board.robots[robot] && exists|
            direction: Direction,
        | #[trigger] board.slide(board.robots[robot], direction) == tile),
{
    let from = board.robots[robot];
    let all = Direction::spec_all();
    lemma_moves_through_contains(board, from, all, tile);
    if board.moves(robot).contains(tile) {
        let i = choose|i: int| 0 <= i < all.len() && board.slide(from, #[trigger] all[i]) == tile;
        assert(board.slide(from, all[i]) == tile);
    }
    if tile != from && exists|direction: Direction| #[trigger]
        board.slide(from, direction) == tile {
        let direction = choose|direction: Direction| #[trigger]
            board.slide(from, direction) == tile;
        let i: int = match direction {
            Direction::Up => 0,
            Direction::Down => 1,
            Direction::Left => 2,
            Direction::Right => 3,
        };
        assert(all[i] == direction);
    }
}

/// The legal destinations of a robot, written out: one for each of up, down,
/// left and right in which the robot moves at all.
pub proof fn lemma_moves_unfolded(board: BoardView, robot: int)
    ensures
        board.moves(robot) == {
            let from = board.robots[robot];
            let one = |direction: Direction|
                if board.slide(from, direction) == from {
                    Seq::<Tile>::empty()
                } else {
                    seq![board.slide(from, direction)]
                };
            one(Direction::Up) + one(Direction::Down) + one(Direction::Left) + one(Direction::Right)
        },
{
    let from = board.robots[robot];
    let all = Direction::spec_all();
    let d3 = all.drop_last();
    let d2 = d3.drop_last();
    let d1 = d2.drop_last();
    let d0 = d1.drop_last();
    assert(d0.len() == 0);
    assert(board.moves_through(from, d0) == Seq::<Tile>::empty());
    assert(d1.last() == Direction::Up);
    assert(d2.last() == Direction::Down);
    assert(d3.last() == Direction::Left);
    assert(all.last() == Direction::Right);
    let m1 = board.moves_through(from, d1);
    let m2 = board.moves_through(from, d2);
    let m3 = board.moves_through(from, d3);
    let m4 = board.moves_through(from, all);
    let one = |direction: Direction|
        if board.slide(from, direction) == from {
            Seq::<Tile>::empty()
        } else {
            seq![board.slide(from, direction)]
        };
    assert(m1 =~= one(Direction::Up));
    assert(m2 =~= m1 + one(Direction::Down));
    assert(m3 =~= m2 + one(Direction::Left));
    assert(m4 =~= m3 + one(Direction::Right));
}

/// A robot has at most four legal destinations.
pub proof fn lemma_moves_bounded(board: BoardView, from: Tile, directions: Seq<Direction>)
    ensures
        board.moves_through(from, directions).len() <= directions.len(),
    decreases directions.len(),
{
    if directions.len() > 0 {
        lemma_moves_bounded(board, from, directions.drop_last());
    }
}

/// A legal move keeps the board in order: the robot lands inside the grid, on a
/// tile that no other robot holds and outside the centre box.
pub proof fn lemma_move_preserves_wf(board: BoardView, robot: int, tile: Tile)
    requires
        board.wf(),
        0 <= robot < board.robots.len(),
        board.moves(robot).contains(tile),
    ensures
        board.after_move(robot, tile).wf(),
        !board.robots.contains(tile),
{
    let from = board.robots[robot];
    lemma_moves_are_slides(board, robot, tile);
    let direction = choose|direction: Direction| #[trigger] board.slide(from, direction) == tile;
    lemma_slide_rests_on_free_tile(board, from, direction);
    let after = board.after_move(robot, tile).robots;
    assert forall|i: int, j: int| 0 <= i < j < after.len() implies after[i] != after[j] by {
        if i != robot && j != robot {
            assert(board.robots[i] != board.robots[j]);
        } else if i == robot {
            assert(board.robots.contains(board.robots[j]));
        } else {
            assert(board.robots.contains(board.robots[i]));
        }
    }
}

/// Returning the robots to their remembered positions twice is the same as doing
/// it once.
pub proof fn lemma_reset_idempotent(board: BoardView)
    ensures
        board.after_reset().after_reset() == board.after_reset(),
{
}

/// Moves change neither the remembered positions nor walls nor target, so after
/// any sequence of legal moves a reset puts every robot back on the position
/// that was remembered before them, and the board stays in order throughout.
pub proof fn lemma_reset_undoes_moves(board: BoardView, moves: Seq<(int, Tile)>)
    requires
        board.wf(),
        board.moves_legal(moves),
    ensures
        board.after_moves(moves).wf(),
        board.after_moves(moves).backup == board.backup,
        board.after_moves(moves).walls == board.walls,
        board.after_moves(moves).target == board.target,
        board.after_moves(moves).after_reset().robots == board.backup,
        board.after_moves(moves).after_reset() == board.after_reset(),
    decreases moves.len(),
{
    if moves.len() > 0 {
        let before = board.after_moves(moves.drop_last());
        lemma_reset_undoes_moves(board, moves.drop_last());
        lemma_move_preserves_wf(before, moves.last().0, moves.last().1);
    }
}

} // verus!
