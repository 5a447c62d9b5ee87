//! Walls: blocked edges between two neighbouring tiles.

use vstd::prelude::*;

use crate::grid::{Direction, Tile, SIZE};

verus! {

/// A blocked edge between two tiles, the same whichever side it is named from.
///
/// The two endpoints are kept in a fixed order (see [`Tile::precedes`]), so that
/// field-wise equality and hashing already ignore the order in which the
/// endpoints were given.
#[derive(Debug, Clone, Copy, PartialEq, Eq, Hash, Structural)]
pub struct Wall {
    lo: Tile,
    hi: Tile,
}

impl Wall {
    /// The wall whose endpoints are `a` and `b`, in either order.
    pub closed spec fn between(a: Tile, b: Tile) -> Wall {
        if a.spec_precedes(&b) {
            Wall { lo: a, hi: b }
        } else {
            Wall { lo: b, hi: a }
        }
    }

    /// The wall between `a` and `b`. The order of the arguments does not matter.
    pub fn new(a: Tile, b: Tile) -> (wall: Wall)
        ensures
            wall == Wall::between(a, b),
            wall.spec_first() == (if a.spec_precedes(&b) {
                a
            } else {
                b
            }),
            wall.spec_second() == (if a.spec_precedes(&b) {
                b
            } else {
                a
            }),
    {
        if a.precedes(&b) {
            Wall { lo: a, hi: b }
        } else {
            Wall { lo: b, hi: a }
        }
    }

    /// The endpoint that comes first in the order of tiles.
    pub closed spec fn spec_first(&self) -> Tile {
        self.lo
    }

    #[verifier::when_used_as_spec(spec_first)]
    pub fn first(&self) -> (tile: Tile)
        ensures
            tile == self.spec_first(),
    {
        self.lo
    }

    /// The endpoint that comes second in the order of tiles.
    pub closed spec fn spec_second(&self) -> Tile {
        self.hi
    }

    #[verifier::when_used_as_spec(spec_second)]
    pub fn second(&self) -> (tile: Tile)
        ensures
            tile == self.spec_second(),
    {
        self.hi
    }

    /// The wall is an edge of the grid: both endpoints lie in the grid, and the
    /// second is the neighbour to the right of the first or below it.
    pub open spec fn spec_is_edge(&self) -> bool {
        &&& self.spec_first().in_grid()
        &&& self.spec_second().in_grid()
        &&& {
            ||| self.spec_first().spec_towards(Direction::Right) == Some(self.spec_second())
            ||| self.spec_first().spec_towards(Direction::Down) == Some(self.spec_second())
        }
    }

    #[verifier::when_used_as_spec(spec_is_edge)]
    pub fn is_edge(&self) -> (b: bool)
        ensures
            b == self.spec_is_edge(),
    {
        self.lo.in_grid() && self.hi.in_grid() && ((self.lo.x + 1 == self.hi.x && self.lo.y
            == self.hi.y) || (self.lo.x == self.hi.x && self.lo.y + 1 == self.hi.y))
    }

    /// The number under which an edge of the grid is filed: the four coordinates
    /// of its endpoints, read as the digits of a number to the base [`SIZE`]. It
    /// is read only of walls for which [`Wall::is_edge`] holds, and no two of
    /// those share one.
    pub open spec fn spec_key(&self) -> usize {
        (((self.spec_first().x * SIZE + self.spec_first().y) * SIZE + self.spec_second().x) * SIZE
            + self.spec_second().y) as usize
    }

    #[verifier::when_used_as_spec(spec_key)]
    pub fn key(&self) -> (k: usize)
        requires
            self.is_edge(),
        ensures
            k == self.spec_key(),
    {
        ((self.lo.x * SIZE + self.lo.y) * SIZE + self.hi.x) * SIZE + self.hi.y
    }
}

impl Tile {
    /// The wall on the side of this tile that faces `direction`.
    pub open spec fn spec_wall_on(&self, direction: Direction) -> Wall {
        Wall::between(*self, self.spec_towards(direction).unwrap())
    }

    /// The wall on the side of this tile that faces `direction`. There must be a
    /// neighbour on that side: the rim of the grid is not made of walls.
    #[verifier::when_used_as_spec(spec_wall_on)]
    pub fn wall_on(&self, direction: Direction) -> (wall: Wall)
        requires
            self.spec_towards(direction) is Some,
        ensures
            wall == self.spec_wall_on(direction),
    {
        let other_tile = self.towards(direction).unwrap();
        Wall::new(*self, other_tile)
    }
}

/// A wall does not depend on the side it is named from.
pub proof fn lemma_wall_symmetric(a: Tile, b: Tile)
    ensures
        Wall::between(a, b) == Wall::between(b, a),
{
}

/// The endpoints of a wall are the two tiles it was made of, in the order of
/// tiles.
pub proof fn lemma_wall_endpoints(a: Tile, b: Tile)
    ensures
        Wall::between(a, b).spec_first() == (if a.spec_precedes(&b) {
            a
        } else {
            b
        }),
        Wall::between(a, b).spec_second() == (if a.spec_precedes(&b) {
            b
        } else {
            a
        }),
{
}

/// Two walls with the same endpoints are the same wall.
pub proof fn lemma_wall_extensional(v: Wall, w: Wall)
    requires
        v.spec_first() == w.spec_first(),
        v.spec_second() == w.spec_second(),
    ensures
        v == w,
{
}

/// The wall between a tile of the grid and one of its neighbours is an edge of
/// the grid.
pub proof fn lemma_neighbours_make_edge(tile: Tile, direction: Direction)
    requires
        tile.in_grid(),
        tile.spec_towards(direction) is Some,
    ensures
        Wall::between(tile, tile.spec_towards(direction).unwrap()).spec_is_edge(),
{
    lemma_wall_endpoints(tile, tile.spec_towards(direction).unwrap());
}

/// A wall with an endpoint outside the grid is no edge of the grid.
pub proof fn lemma_edge_inside(a: Tile, b: Tile)
    requires
        !a.in_grid() || !b.in_grid(),
    ensures
        !Wall::between(a, b).spec_is_edge(),
{
    lemma_wall_endpoints(a, b);
}

/// Distinct edges of the grid have distinct keys.
pub proof fn lemma_key_injective(v: Wall, w: Wall)
    requires
        v.spec_is_edge(),
        w.spec_is_edge(),
        v.spec_key() == w.spec_key(),
    ensures
        v == w,
{
    assert(v.spec_first() == w.spec_first() && v.spec_second() == w.spec_second());
    lemma_wall_extensional(v, w);
}

} // verus!
