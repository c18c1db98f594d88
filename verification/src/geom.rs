//! World geometry: 2D positions and velocities in fixed-point milli-units,
//! the world rectangle, and Euclidean distance.

use vstd::prelude::*;
use crate::math::{abs_i64, abs_spec, isqrt_u64, sqrt_floor};

verus! {

/// World width, in milli-units (1200 world units).
pub const BOUNDS_X: i64 = 1_200_000;

/// World height, in milli-units (640 world units).
pub const BOUNDS_Y: i64 = 640_000;

/// Half the world width: positions satisfy `-HALF_X <= x <= HALF_X`.
pub const HALF_X: i64 = 600_000;

/// Half the world height: positions satisfy `-HALF_Y <= y <= HALF_Y`.
pub const HALF_Y: i64 = 320_000;

/// Largest coordinate magnitude the distance computation accepts; chosen so
/// that the squared distance between two such coordinates fits in a `u64`.
pub const COORD_LIMIT: i64 = 1_500_000_000;

/// A point in world space, in milli-units per axis.
#[derive(Clone, Copy, PartialEq, Eq, Structural, Debug)]
pub struct Position {
    pub x: i64,
    pub y: i64,
}

/// A rate of change of position per simulation tick, in milli-units per axis.
#[derive(Clone, Copy, PartialEq, Eq, Structural, Debug)]
pub struct Velocity {
    pub x: i64,
    pub y: i64,
}

/// Both coordinates of `p` have magnitude at most `limit`.
pub open spec fn coords_within(p: Position, limit: int) -> bool {
    -limit <= p.x <= limit && -limit <= p.y <= limit
}

/// `p` lies inside the world rectangle centered at the origin.
pub open spec fn in_world(p: Position) -> bool {
    -HALF_X <= p.x <= HALF_X && -HALF_Y <= p.y <= HALF_Y
}

/// The squared Euclidean distance between `(ax, ay)` and `(bx, by)`.
pub open spec fn dist2_spec(ax: int, ay: int, bx: int, by: int) -> int {
    (ax - bx) * (ax - bx) + (ay - by) * (ay - by)
}

/// A square is never negative.
pub proof fn lemma_square_nonneg(v: int)
    ensures
        v * v >= 0,
{
    assert(v * v >= 0) by (nonlinear_arith);
}

/// The Euclidean distance between `(ax, ay)` and `(bx, by)`, rounded down to
/// a whole number of milli-units.
pub open spec fn dist_spec(ax: int, ay: int, bx: int, by: int) -> int {
    sqrt_floor(dist2_spec(ax, ay, bx, by) as nat) as int
}

/// The distance between two positions, rounded down to whole milli-units.
pub fn get_dist(pos_a: &Position, pos_b: &Position) -> (d: u64)
    requires
        coords_within(*pos_a, COORD_LIMIT as int),
        coords_within(*pos_b, COORD_LIMIT as int),
    ensures
        d == dist_spec(pos_a.x as int, pos_a.y as int, pos_b.x as int, pos_b.y as int),
        d < 4294967296,
{
    let dx: i64 = pos_a.x - pos_b.x;
    let dy: i64 = pos_a.y - pos_b.y;
    let adx: u64 = abs_i64(dx) as u64;
    let ady: u64 = abs_i64(dy) as u64;
    assert(adx * adx == (dx as int) * (dx as int) && adx * adx <= 9000000000000000000) by (nonlinear_arith)
        requires
            adx == abs_spec(dx as int),
            -3000000000 <= dx <= 3000000000,
    ;
    assert(ady * ady == (dy as int) * (dy as int) && ady * ady <= 9000000000000000000) by (nonlinear_arith)
        requires
            ady == abs_spec(dy as int),
            -3000000000 <= dy <= 3000000000,
    ;
    let d2: u64 = adx * adx + ady * ady;
    isqrt_u64(d2)
}

} // verus!
