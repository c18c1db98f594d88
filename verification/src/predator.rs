//! The predator: an agent that each tick finds the nearest particle and
//! pursues it, stopping once within a threshold distance.

use vstd::prelude::*;
use crate::geom::{coords_within, dist_spec, in_world, get_dist, Position, Velocity};
use crate::math::{abs_spec, div_trunc, div_trunc_i64, lemma_div_trunc_bound, lemma_div_trunc_mag};
use crate::swarm::Particle;
use vstd::arithmetic::div_mod::lemma_div_is_ordered_by_denominator;

verus! {

/// The pursuit stops once the nearest particle is within this distance, in
/// milli-units (50 world units).
pub const STOP_THRESHOLD: i64 = 50_000;

/// Pursuit speed: milli-units per millisecond, which is 100 world units per
/// second.
pub const PREDATOR_SPEED: i64 = 100;

/// Largest predator coordinate magnitude the update accepts, in milli-units.
pub const PRED_POS_LIMIT: i64 = 1_000_000_000;

/// Largest elapsed time between two ticks the update accepts, in
/// milliseconds (one hour).
pub const DT_MS_LIMIT: u64 = 3_600_000;

/// The pursuing agent: its position, its velocity as drawn at setup, and
/// the direction it faces (the unnormalized vector toward the particle it
/// last oriented on).
#[derive(Clone, Copy, PartialEq, Eq, Structural, Debug)]
pub struct Predator {
    pub pos: Position,
    pub velocity: Velocity,
    pub facing: Velocity,
}

impl Predator {
    /// Validity: the predator's coordinates are within the machine limit.
    pub open spec fn wf(self) -> bool {
        coords_within(self.pos, PRED_POS_LIMIT as int)
    }

    /// A freshly spawned predator, not yet facing anything.
    pub fn new(pos: Position, velocity: Velocity) -> (p: Predator)
        requires
            coords_within(pos, PRED_POS_LIMIT as int),
        ensures
            p.wf(),
            p.pos == pos,
            p.velocity == velocity,
            p.facing == (Velocity { x: 0, y: 0 }),
    {
        Predator { pos, velocity, facing: Velocity { x: 0, y: 0 } }
    }
}

/// The nearest particle to `pp`: its position and its distance, the
/// earliest particle winning ties (later particles replace it only on
/// strictly smaller distance).
pub open spec fn nearest_over(s: Seq<Particle>, pp: Position) -> (Position, int)
    recommends
        s.len() >= 1,
    decreases s.len(),
{
    if s.len() <= 1 {
        (s[0].pos, dist_spec(pp.x as int, pp.y as int, s[0].pos.x as int, s[0].pos.y as int))
    } else {
        let prev = nearest_over(s.drop_last(), pp);
        let dl = dist_spec(
            pp.x as int,
            pp.y as int,
            s.last().pos.x as int,
            s.last().pos.y as int,
        );
        if dl < prev.1 {
            (s.last().pos, dl)
        } else {
            prev
        }
    }
}

/// Law: the nearest-particle search returns the minimum distance over the
/// population, and the reported position is that of one particle at that
/// distance.
pub proof fn lemma_nearest_is_min(s: Seq<Particle>, pp: Position)
    requires
        s.len() >= 1,
    ensures
        forall|i: int|
            0 <= i < s.len() ==> nearest_over(s, pp).1 <= #[trigger] dist_spec(
                pp.x as int,
                pp.y as int,
                s[i].pos.x as int,
                s[i].pos.y as int,
            ),
        exists|i: int|
            0 <= i < s.len() && nearest_over(s, pp).0 == #[trigger] s[i].pos && nearest_over(
                s,
                pp,
            ).1 == dist_spec(pp.x as int, pp.y as int, s[i].pos.x as int, s[i].pos.y as int),
    decreases s.len(),
{
    if s.len() == 1 {
        assert(nearest_over(s, pp).0 == s[0].pos);
    } else {
        let t = s.drop_last();
        lemma_nearest_is_min(t, pp);
        assert(forall|i: int| 0 <= i < t.len() ==> t[i] == s[i]);
        let dl = dist_spec(
            pp.x as int,
            pp.y as int,
            s.last().pos.x as int,
            s.last().pos.y as int,
        );
        if dl < nearest_over(t, pp).1 {
            assert(nearest_over(s, pp).0 == s[s.len() - 1].pos);
        } else {
            let w = choose|i: int|
                0 <= i < t.len() && nearest_over(t, pp).0 == #[trigger] t[i].pos && nearest_over(
                    t,
                    pp,
                ).1 == dist_spec(pp.x as int, pp.y as int, t[i].pos.x as int, t[i].pos.y as int);
            assert(nearest_over(s, pp).0 == s[w].pos);
        }
    }
}

/// The predator after one tick.  Pursuing (nearest distance above the
/// threshold): each axis advances by the distance-normalized direction
/// times speed times elapsed time, and the predator turns to face the
/// particle.  Holding (at or under the threshold): the position stays; the
/// predator still turns to face the particle, unless it coincides with it,
/// in which case nothing changes.
pub open spec fn pred_step_spec(p: Predator, s: Seq<Particle>, dt: int) -> Predator {
    let t = nearest_over(s, p.pos);
    let dx = t.0.x - p.pos.x;
    let dy = t.0.y - p.pos.y;
    if t.1 > STOP_THRESHOLD {
        Predator {
            pos: Position {
                x: (p.pos.x + div_trunc(dx * PREDATOR_SPEED * dt, t.1)) as i64,
                y: (p.pos.y + div_trunc(dy * PREDATOR_SPEED * dt, t.1)) as i64,
            },
            velocity: p.velocity,
            facing: Velocity { x: dx as i64, y: dy as i64 },
        }
    } else if t.1 > 0 {
        Predator { facing: Velocity { x: dx as i64, y: dy as i64 }, ..p }
    } else {
        p
    }
}

/// Law: the two predator states.  Pursuing (nearest distance above the
/// threshold): each coordinate changes only toward the nearest particle,
/// and the predator turns to face it.  Holding (at or under the
/// threshold): the position is unchanged and only the orientation turns
/// toward the nearest particle — not even that when the two coincide.
pub proof fn lemma_predator_transition(p: Predator, s: Seq<Particle>, dt: int)
    requires
        s.len() >= 1,
        forall|i: int| 0 <= i < s.len() ==> in_world(#[trigger] s[i].pos),
        p.wf(),
        0 <= dt <= DT_MS_LIMIT,
    ensures
        pred_step_spec(p, s, dt).velocity == p.velocity,
        nearest_over(s, p.pos).1 > STOP_THRESHOLD ==> (pred_step_spec(p, s, dt).pos.x - p.pos.x)
            * (nearest_over(s, p.pos).0.x - p.pos.x) >= 0,
        nearest_over(s, p.pos).1 > STOP_THRESHOLD ==> (pred_step_spec(p, s, dt).pos.y - p.pos.y)
            * (nearest_over(s, p.pos).0.y - p.pos.y) >= 0,
        nearest_over(s, p.pos).1 > 0 ==> pred_step_spec(p, s, dt).facing == (Velocity {
            x: (nearest_over(s, p.pos).0.x - p.pos.x) as i64,
            y: (nearest_over(s, p.pos).0.y - p.pos.y) as i64,
        }),
        nearest_over(s, p.pos).1 <= STOP_THRESHOLD ==> pred_step_spec(p, s, dt).pos == p.pos,
        nearest_over(s, p.pos).1 == 0 ==> pred_step_spec(p, s, dt) == p,
{
    lemma_nearest_is_min(s, p.pos);
    let t = nearest_over(s, p.pos);
    let w = choose|i: int|
        0 <= i < s.len() && nearest_over(s, p.pos).0 == #[trigger] s[i].pos && nearest_over(
            s,
            p.pos,
        ).1 == dist_spec(p.pos.x as int, p.pos.y as int, s[i].pos.x as int, s[i].pos.y as int);
    assert(in_world(t.0));
    if t.1 > STOP_THRESHOLD {
        let dx = t.0.x - p.pos.x;
        let dy = t.0.y - p.pos.y;
        let numx = dx * PREDATOR_SPEED * dt;
        let numy = dy * PREDATOR_SPEED * dt;
        assert((-360_216_000_000_000_000 <= (dx * PREDATOR_SPEED) * dt <= 360_216_000_000_000_000)
            && (dx >= 0 ==> (dx * PREDATOR_SPEED) * dt >= 0) && (dx <= 0 ==> (dx * PREDATOR_SPEED)
            * dt <= 0)) by (nonlinear_arith)
            requires
                -1_000_600_000 <= dx <= 1_000_600_000,
                0 <= dt <= 3_600_000,
                PREDATOR_SPEED == 100,
        ;
        assert((-360_216_000_000_000_000 <= (dy * PREDATOR_SPEED) * dt <= 360_216_000_000_000_000)
            && (dy >= 0 ==> (dy * PREDATOR_SPEED) * dt >= 0) && (dy <= 0 ==> (dy * PREDATOR_SPEED)
            * dt <= 0)) by (nonlinear_arith)
            requires
                -1_000_600_000 <= dy <= 1_000_600_000,
                0 <= dt <= 3_600_000,
                PREDATOR_SPEED == 100,
        ;
        let mvx = div_trunc(numx, t.1);
        let mvy = div_trunc(numy, t.1);
        lemma_div_trunc_mag(numx, t.1, 360_216_000_000_000_000);
        lemma_div_trunc_mag(numy, t.1, 360_216_000_000_000_000);
        lemma_div_is_ordered_by_denominator(360_216_000_000_000_000int, 50_001int, t.1);
        lemma_div_trunc_bound(numx, t.1);
        lemma_div_trunc_bound(numy, t.1);
        assert(abs_spec(mvx) <= 360_216_000_000_000_000int / 50_001int);
        assert(abs_spec(mvy) <= 360_216_000_000_000_000int / 50_001int);
        assert(pred_step_spec(p, s, dt).pos.x - p.pos.x == mvx);
        assert(pred_step_spec(p, s, dt).pos.y - p.pos.y == mvy);
        if dx >= 0 {
            assert(mvx * dx >= 0) by (nonlinear_arith)
                requires
                    mvx >= 0,
                    dx >= 0,
            ;
        } else {
            assert(mvx * dx >= 0) by (nonlinear_arith)
                requires
                    mvx <= 0,
                    dx <= 0,
            ;
        }
        if dy >= 0 {
            assert(mvy * dy >= 0) by (nonlinear_arith)
                requires
                    mvy >= 0,
                    dy >= 0,
            ;
        } else {
            assert(mvy * dy >= 0) by (nonlinear_arith)
                requires
                    mvy <= 0,
                    dy <= 0,
            ;
        }
    }
}

/// Scan all particles, move toward the nearest one while it is farther than
/// the stopping threshold, and face it.
pub fn predator_move(pred: &mut Predator, particles: &Vec<Particle>, dt_ms: u64)
    requires
        particles@.len() >= 1,
        forall|i: int| 0 <= i < particles@.len() ==> in_world(#[trigger] particles@[i].pos),
        old(pred).wf(),
        dt_ms <= DT_MS_LIMIT,
    ensures
        *final(pred) == pred_step_spec(*old(pred), particles@, dt_ms as int),
        final(pred).velocity == old(pred).velocity,
{
    let n: usize = particles.len();
    let mut min_dist: u64 = get_dist(&pred.pos, &particles[0].pos);
    let mut min_part_pos: Position = particles[0].pos;
    let mut i: usize = 1;
    while i < n
        invariant
            1 <= i <= n,
            n == particles@.len(),
            forall|j: int| 0 <= j < n ==> in_world(#[trigger] particles@[j].pos),
            *pred == *old(pred),
            pred.wf(),
            min_dist < 4294967296,
            in_world(min_part_pos),
            min_part_pos == nearest_over(particles@.take(i as int), pred.pos).0,
            min_dist as int == nearest_over(particles@.take(i as int), pred.pos).1,
        decreases n - i,
    {
        let new_dist: u64 = get_dist(&pred.pos, &particles[i].pos);
        proof {
            assert(particles@.take(i + 1 as int).drop_last() =~= particles@.take(i as int));
            assert(particles@.take(i + 1 as int).last() == particles@[i as int]);
        }
        if new_dist < min_dist {
            min_dist = new_dist;
            min_part_pos = particles[i].pos;
        }
        i += 1;
    }
    proof {
        assert(particles@.take(n as int) =~= particles@);
    }
    if min_dist > 50_000 {
        let dx: i64 = min_part_pos.x - pred.pos.x;
        let dy: i64 = min_part_pos.y - pred.pos.y;
        let dti: i64 = dt_ms as i64;
        let dist_i: i64 = min_dist as i64;
        proof {
            assert(-360_216_000_000_000_000 <= (dx * 100) * dti <= 360_216_000_000_000_000)
                by (nonlinear_arith)
                requires
                    -1_000_600_000 <= dx <= 1_000_600_000,
                    0 <= dti <= 3_600_000,
            ;
            assert(-360_216_000_000_000_000 <= (dy * 100) * dti <= 360_216_000_000_000_000)
                by (nonlinear_arith)
                requires
                    -1_000_600_000 <= dy <= 1_000_600_000,
                    0 <= dti <= 3_600_000,
            ;
        }
        let num_x: i64 = dx * 100 * dti;
        let num_y: i64 = dy * 100 * dti;
        let mx: i64 = div_trunc_i64(num_x, dist_i);
        let my: i64 = div_trunc_i64(num_y, dist_i);
        proof {
            lemma_div_trunc_mag(num_x as int, dist_i as int, 360_216_000_000_000_000);
            lemma_div_trunc_mag(num_y as int, dist_i as int, 360_216_000_000_000_000);
            lemma_div_is_ordered_by_denominator(360_216_000_000_000_000int, 50_001int, dist_i as int);
            assert(abs_spec(mx as int) <= 360_216_000_000_000_000int / 50_001int);
            assert(abs_spec(my as int) <= 360_216_000_000_000_000int / 50_001int);
        }
        pred.pos = Position { x: pred.pos.x + mx, y: pred.pos.y + my };
        pred.facing = Velocity { x: dx, y: dy };
    } else if min_dist > 0 {
        let dx: i64 = min_part_pos.x - pred.pos.x;
        let dy: i64 = min_part_pos.y - pred.pos.y;
        pred.facing = Velocity { x: dx, y: dy };
    }
}

} // verus!
