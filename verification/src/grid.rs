//! Coordinate primitives: tiles, directions and neighbours on the grid.

use vstd::prelude::*;

use crate::entropy::random_usize;

verus! {

/// Side length of the square grid.
pub const SIZE: usize = 16;

/// One of the four directions a robot can slide in.
#[derive(Debug, Clone, Copy, PartialEq, Eq, Structural)]
pub enum Direction {
    Up,
    Down,
    Left,
    Right,
}

impl Direction {
    /// The four directions, in the order in which slides are explored.
    pub open spec fn spec_all() -> Seq<Direction> {
        seq![Direction::Up, Direction::Down, Direction::Left, Direction::Right]
    }

    /// The four directions, in the order in which slides are explored.
    pub fn all() -> (dirs: [Direction; 4])
        ensures
            dirs@ == Direction::spec_all(),
    {
        [Direction::Up, Direction::Down, Direction::Left, Direction::Right]
    }

    /// The direction that undoes one step taken in `self`.
    pub open spec fn reverse(self) -> Direction {
        match self {
            Direction::Up => Direction::Down,
            Direction::Down => Direction::Up,
            Direction::Left => Direction::Right,
            Direction::Right => Direction::Left,
        }
    }
}

/// One cell of the grid, addressed by column `x` and row `y`.
///
/// A tile that belongs to the grid has both coordinates below [`SIZE`]; see
/// [`Tile::in_grid`]. `y` grows downwards and `x` grows to the right.
#[derive(Debug, Clone, Copy, PartialEq, Eq, Hash, PartialOrd, Ord, Structural)]
pub struct Tile {
    pub x: usize,
    pub y: usize,
}

impl Tile {
    pub fn new(x: usize, y: usize) -> (t: Tile)
        ensures
            t == (Tile { x, y }),
    {
        Tile { x, y }
    }

    /// The tile addressed by two raw draws, each reduced to a coordinate.
    pub open spec fn spec_from_draws(a: usize, b: usize) -> Tile {
        Tile { x: a % SIZE, y: b % SIZE }
    }

    /// Turns two unconstrained numbers into a tile of the grid: each coordinate is
    /// the draw modulo [`SIZE`], so uniform draws give uniform coordinates.
    pub fn from_draws(a: usize, b: usize) -> (t: Tile)
        ensures
            t == Tile::spec_from_draws(a, b),
            t.in_grid(),
    {
        Tile { x: a % SIZE, y: b % SIZE }
    }

    /// A tile of the grid with both coordinates drawn independently.
    ///
    /// Neither the centre box nor occupied tiles are avoided; the caller filters.
    pub fn new_random() -> (t: Tile)
        ensures
            t.in_grid(),
    {
        let a = random_usize();
        let b = random_usize();
        Tile::from_draws(a, b)
    }

    /// Both coordinates address a cell of the grid.
    pub open spec fn spec_in_grid(&self) -> bool {
        self.x < SIZE && self.y < SIZE
    }

    #[verifier::when_used_as_spec(spec_in_grid)]
    pub fn in_grid(&self) -> (b: bool)
        ensures
            b == self.spec_in_grid(),
    {
        self.x < SIZE && self.y < SIZE
    }

    /// The tile lies in the forbidden 2 by 2 box at the centre of the grid.
    pub open spec fn spec_in_middle_box(&self) -> bool {
        6 < self.x < 9 && 6 < self.y < 9
    }

    #[verifier::when_used_as_spec(spec_in_middle_box)]
    pub fn in_middle_box(&self) -> (b: bool)
        ensures
            b == self.spec_in_middle_box(),
    {
        self.x > 6 && self.x < 9 && self.y > 6 && self.y < 9
    }

    /// The order used to pick the representative endpoint of an edge: by column,
    /// then by row.
    pub open spec fn spec_precedes(&self, other: &Tile) -> bool {
        self.x < other.x || (self.x == other.x && self.y <= other.y)
    }

    #[verifier::when_used_as_spec(spec_precedes)]
    pub fn precedes(&self, other: &Tile) -> (b: bool)
        ensures
            b == self.spec_precedes(other),
    {
        self.x < other.x || (self.x == other.x && self.y <= other.y)
    }

    /// The neighbour one step away in `direction`, or `None` where that step
    /// would leave the grid.
    pub open spec fn spec_towards(&self, direction: Direction) -> Option<Tile> {
        match direction {
            Direction::Up => if self.y >= 1 {
                Some(Tile { x: self.x, y: (self.y - 1) as usize })
            } else {
                None
            },
            Direction::Down => if self.y < SIZE - 1 {
                Some(Tile { x: self.x, y: (self.y + 1) as usize })
            } else {
                None
            },
            Direction::Left => if self.x >= 1 {
                Some(Tile { x: (self.x - 1) as usize, y: self.y })
            } else {
                None
            },
            Direction::Right => if self.x < SIZE - 1 {
                Some(Tile { x: (self.x + 1) as usize, y: self.y })
            } else {
                None
            },
        }
    }

    /// The neighbour one step away in `direction`. The edge of the grid is
    /// reported as the absence of a neighbour.
    #[verifier::when_used_as_spec(spec_towards)]
    pub fn towards(&self, direction: Direction) -> (next: Option<Tile>)
        ensures
            next == self.spec_towards(direction),
    {
        match direction {
            Direction::Up => {
                if self.y >= 1 {
                    Some(Tile::new(self.x, self.y - 1))
                } else {
                    None
                }
            },
            Direction::Down => {
                if self.y >= SIZE - 1 {
                    None
                } else {
                    Some(Tile::new(self.x, self.y + 1))
                }
            },
            Direction::Left => {
                if self.x >= 1 {
                    Some(Tile::new(self.x - 1, self.y))
                } else {
                    None
                }
            },
            Direction::Right => {
                if self.x >= SIZE - 1 {
                    None
                } else {
                    Some(Tile::new(self.x + 1, self.y))
                }
            },
        }
    }

    /// How many steps can be taken from here in `direction` before the grid ends.
    pub open spec fn room(self, direction: Direction) -> nat {
        match direction {
            Direction::Up => self.y as nat,
            Direction::Down => if self.y < SIZE - 1 {
                (SIZE - 1 - self.y) as nat
            } else {
                0
            },
            Direction::Left => self.x as nat,
            Direction::Right => if self.x < SIZE - 1 {
                (SIZE - 1 - self.x) as nat
            } else {
                0
            },
        }
    }

    /// The tile reached after `steps` steps in `direction`, for `steps` of at most
    /// `self.room(direction)`.
    pub open spec fn shifted(self, direction: Direction, steps: nat) -> Tile {
        match direction {
            Direction::Up => Tile { x: self.x, y: (self.y - steps) as usize },
            Direction::Down => Tile { x: self.x, y: (self.y + steps) as usize },
            Direction::Left => Tile { x: (self.x - steps) as usize, y: self.y },
            Direction::Right => Tile { x: (self.x + steps) as usize, y: self.y },
        }
    }
}

/// A step exists exactly while there is room, it uses up one unit of room, and
/// it is the same as shifting by one.
pub proof fn lemma_step(tile: Tile, direction: Direction)
    ensures
        tile.spec_towards(direction) is Some <==> tile.room(direction) > 0,
        tile.spec_towards(direction) matches Some(next) ==> {
            &&& next.room(direction) == tile.room(direction) - 1
            &&& next == tile.shifted(direction, 1)
            &&& tile.in_grid() ==> next.in_grid()
        },
{
}

/// Stepping back from a neighbour inside the grid returns to the start.
pub proof fn lemma_step_back(tile: Tile, direction: Direction)
    requires
        tile.in_grid(),
    ensures
        tile.spec_towards(direction) matches Some(next) ==> next.spec_towards(direction.reverse())
            == Some(tile),
{
}

} // verus!
