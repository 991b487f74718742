//! The playing field in fixed-point coordinates.
//!
//! Every peer has to compute the same positions bit for bit, so lengths are
//! whole numbers of a small unit and a tick lasts one sixtieth of a second. A
//! heading stands for a unit vector; along a diagonal each axis gets the whole
//! number of units that is nearest to the straight step divided by the square
//! root of two.

use vstd::prelude::*;
use crate::input::Direction;
use crate::input::Sign;

verus! {

/// Length units in one cell of the map grid.
pub const UNITS_PER_CELL: i64 = 60_000;

/// Simulation ticks in one second.
pub const TICKS_PER_SECOND: i64 = 60;

/// Cells along one side of the square map.
pub const MAP_SIZE: i64 = 41;

/// Cells that a player covers in one second.
pub const PLAYER_SPEED: i64 = 7;

/// Cells that a bullet covers in one second.
pub const BULLET_SPEED: i64 = 20;

/// Cells from the origin past which an entity is cleaned up.
pub const DESPAWN_CELLS: i64 = 100;

/// Half the side of the arena, in units: a player's centre stays half a cell
/// inside the edge of the map.
pub const ARENA_LIMIT: i64 = 1_200_000;

/// Units that a player covers in one tick along one axis.
pub const PLAYER_STEP: i64 = 7_000;

/// Units per axis that a player covers in one tick along a diagonal.
pub const PLAYER_STEP_DIAGONAL: i64 = 4_950;

/// Units that a bullet covers in one tick along one axis.
pub const BULLET_STEP: i64 = 20_000;

/// Units per axis that a bullet covers in one tick along a diagonal.
pub const BULLET_STEP_DIAGONAL: i64 = 14_142;

/// Units from the origin past which an entity is cleaned up.
pub const DESPAWN_DISTANCE: i64 = 6_000_000;

/// A point of the plane as the contracts see it.
pub struct Vec2 {
    pub x: int,
    pub y: int,
}

/// A point of the plane in units.
#[derive(Clone, Copy, Debug, PartialEq, Eq, Structural)]
pub struct Point {
    pub x: i64,
    pub y: i64,
}

impl View for Point {
    type V = Vec2;

    open spec fn view(&self) -> Vec2 {
        Vec2 { x: self.x as int, y: self.y as int }
    }
}

/// `v` brought into `lo ..= hi`.
pub open spec fn clamp(v: int, lo: int, hi: int) -> int {
    if v < lo {
        lo
    } else if v > hi {
        hi
    } else {
        v
    }
}

/// What one tick adds to one coordinate: the sign of the heading on that axis
/// times the straight step, or times the diagonal step where the heading has a
/// part on the other axis too.
pub open spec fn axis_step(along: Sign, across: Sign, straight: int, diagonal: int) -> int {
    along.value() * (if across == Sign::Zero {
        straight
    } else {
        diagonal
    })
}

impl Vec2 {
    /// Inside the arena, its edge included.
    pub open spec fn in_arena(self) -> bool {
        &&& -ARENA_LIMIT <= self.x <= ARENA_LIMIT
        &&& -ARENA_LIMIT <= self.y <= ARENA_LIMIT
    }

    /// Both coordinates no further than `bound` from zero.
    pub open spec fn within(self, bound: int) -> bool {
        &&& -bound <= self.x <= bound
        &&& -bound <= self.y <= bound
    }

    /// The square of the distance from the origin.
    pub open spec fn norm_squared(self) -> int {
        self.x * self.x + self.y * self.y
    }

    /// No further from the origin than the clean-up distance.
    pub open spec fn in_reach(self) -> bool {
        self.norm_squared() <= DESPAWN_DISTANCE * DESPAWN_DISTANCE
    }

    /// The point one tick further along `heading`.
    pub open spec fn stepped(self, heading: Direction, straight: int, diagonal: int) -> Vec2 {
        Vec2 {
            x: self.x + axis_step(heading.x, heading.y, straight, diagonal),
            y: self.y + axis_step(heading.y, heading.x, straight, diagonal),
        }
    }

    /// The nearest point of the arena: each coordinate clamped by itself.
    pub open spec fn clamped(self) -> Vec2 {
        Vec2 {
            x: clamp(self.x, -ARENA_LIMIT as int, ARENA_LIMIT as int),
            y: clamp(self.y, -ARENA_LIMIT as int, ARENA_LIMIT as int),
        }
    }
}

/// Executable form of [`clamp`].
pub fn clamp_i64(v: i64, lo: i64, hi: i64) -> (r: i64)
    ensures
        r == clamp(v as int, lo as int, hi as int),
{
    if v < lo {
        lo
    } else if v > hi {
        hi
    } else {
        v
    }
}

/// Executable form of [`axis_step`]. A length is not negative.
pub fn step_i64(along: Sign, across: Sign, straight: i64, diagonal: i64) -> (r: i64)
    requires
        0 <= straight,
        0 <= diagonal,
    ensures
        r == axis_step(along, across, straight as int, diagonal as int),
{
    let length: i64 = match across {
        Sign::Zero => straight,
        _ => diagonal,
    };
    match along {
        Sign::Minus => -length,
        Sign::Zero => 0,
        Sign::Plus => length,
    }
}

impl Point {
    /// Executable form of [`Vec2::in_arena`].
    pub fn in_arena(&self) -> (r: bool)
        ensures
            r == self@.in_arena(),
    {
        -ARENA_LIMIT <= self.x && self.x <= ARENA_LIMIT && -ARENA_LIMIT <= self.y && self.y
            <= ARENA_LIMIT
    }

    /// Whether the point is no further from the origin than the clean-up
    /// distance.
    pub fn in_reach(&self) -> (r: bool)
        ensures
            r == self@.in_reach(),
    {
        let far_x: bool = self.x < -DESPAWN_DISTANCE || self.x > DESPAWN_DISTANCE;
        let far_y: bool = self.y < -DESPAWN_DISTANCE || self.y > DESPAWN_DISTANCE;
        if far_x || far_y {
            proof {
                lemma_square_grows(self.x as int, self.y as int);
            }
            false
        } else {
            proof {
                lemma_square_bounded(self.x as int);
                lemma_square_bounded(self.y as int);
            }
            self.x * self.x + self.y * self.y <= DESPAWN_DISTANCE * DESPAWN_DISTANCE
        }
    }
}

/// A coordinate within the clean-up distance has a square no larger than the
/// square of that distance.
proof fn lemma_square_bounded(v: int)
    requires
        -DESPAWN_DISTANCE <= v <= DESPAWN_DISTANCE,
    ensures
        0 <= v * v <= DESPAWN_DISTANCE * DESPAWN_DISTANCE,
        DESPAWN_DISTANCE * DESPAWN_DISTANCE == 36_000_000_000_000,
{
    assert(0 <= v * v <= 6_000_000 * 6_000_000) by (nonlinear_arith)
        requires
            -6_000_000 <= v <= 6_000_000,
    ;
}

/// A point with a coordinate beyond the clean-up distance lies beyond it.
proof fn lemma_square_grows(x: int, y: int)
    requires
        x < -DESPAWN_DISTANCE || x > DESPAWN_DISTANCE || y < -DESPAWN_DISTANCE || y
            > DESPAWN_DISTANCE,
    ensures
        x * x + y * y > DESPAWN_DISTANCE * DESPAWN_DISTANCE,
{
    assert(x * x >= 0 && y * y >= 0) by (nonlinear_arith);
    if x < -DESPAWN_DISTANCE || x > DESPAWN_DISTANCE {
        assert(x * x > 6_000_000 * 6_000_000) by (nonlinear_arith)
            requires
                x < -6_000_000 || x > 6_000_000,
        ;
    } else {
        assert(y * y > 6_000_000 * 6_000_000) by (nonlinear_arith)
            requires
                y < -6_000_000 || y > 6_000_000,
        ;
    }
}

/// The step lengths are the speeds at sixty ticks a second, the arena leaves
/// half a cell between a player's centre and the edge of the map, and each
/// diagonal step is the whole number nearest to its straight step divided by
/// the square root of two.
pub proof fn lemma_step_lengths()
    ensures
        PLAYER_STEP * TICKS_PER_SECOND == PLAYER_SPEED * UNITS_PER_CELL,
        BULLET_STEP * TICKS_PER_SECOND == BULLET_SPEED * UNITS_PER_CELL,
        2 * ARENA_LIMIT == (MAP_SIZE - 1) * UNITS_PER_CELL,
        DESPAWN_DISTANCE == DESPAWN_CELLS * UNITS_PER_CELL,
        (2 * PLAYER_STEP_DIAGONAL - 1) * (2 * PLAYER_STEP_DIAGONAL - 1) < 2 * PLAYER_STEP
            * PLAYER_STEP < (2 * PLAYER_STEP_DIAGONAL + 1) * (2 * PLAYER_STEP_DIAGONAL + 1),
        (2 * BULLET_STEP_DIAGONAL - 1) * (2 * BULLET_STEP_DIAGONAL - 1) < 2 * BULLET_STEP
            * BULLET_STEP < (2 * BULLET_STEP_DIAGONAL + 1) * (2 * BULLET_STEP_DIAGONAL + 1),
{
    assert(9_899 * 9_899 < 2 * 7_000 * 7_000 < 9_901 * 9_901);
    assert(28_283 * 28_283 < 2 * 20_000 * 20_000 < 28_285 * 28_285);
}

/// Every point of the arena lies within the clean-up distance.
pub proof fn lemma_arena_in_reach(p: Vec2)
    requires
        p.in_arena(),
    ensures
        p.in_reach(),
{
    assert(p.x * p.x <= 1_200_000 * 1_200_000) by (nonlinear_arith)
        requires
            -1_200_000 <= p.x <= 1_200_000,
    ;
    assert(p.y * p.y <= 1_200_000 * 1_200_000) by (nonlinear_arith)
        requires
            -1_200_000 <= p.y <= 1_200_000,
    ;
}

/// A point within the clean-up distance has both coordinates within it.
pub proof fn lemma_in_reach_within(p: Vec2)
    requires
        p.in_reach(),
    ensures
        p.within(DESPAWN_DISTANCE as int),
{
    if !p.within(DESPAWN_DISTANCE as int) {
        lemma_square_grows(p.x, p.y);
    }
}

} // verus!
