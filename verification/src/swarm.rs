//! The particle swarm: per-particle state, the fitness function, the
//! personal/global best bookkeeping and the PSO velocity/position update.

use vstd::prelude::*;
use crate::geom::{
    coords_within, dist_spec, in_world, get_dist, Position, Velocity, COORD_LIMIT, HALF_X, HALF_Y,
};
use crate::math::{
    abs_spec, clamp_i64, clamp_spec, div_trunc, div_trunc_i64, lemma_div_trunc_mag,
    lemma_sqrt_floor, sqrt_floor,
};
use crate::rng::random_below;

verus! {

/// The fixed optimum the fitness function rewards closeness to (x axis),
/// in milli-units (-300 world units).
pub const OPTIMAL_X: i64 = -300_000;

/// The fixed optimum the fitness function rewards closeness to (y axis).
pub const OPTIMAL_Y: i64 = 0;

/// The fitness of a position exactly at the optimum, in micro-units (1.0).
/// One micro-unit of fitness is lost per milli-unit of distance, which is
/// the rate of one thousandth of a fitness unit per world unit.
pub const FITNESS_ONE: i64 = 1_000_000;

/// Numerator of the inertia weight: the retained fraction of the previous
/// velocity is 950/1000.
pub const INERTIA_NUM: i64 = 950;

/// Numerator of the cognitive and social acceleration coefficients, both
/// 1400/1000.
pub const ACCEL_NUM: i64 = 1400;

/// Scale of the random factors: a draw `r` in `[0, RAND_SCALE)` stands for
/// a real in `[0, 1)`.
pub const RAND_SCALE: u64 = 1000;

/// Denominator of the combined velocity update: the inertia scale (1000)
/// times the random-factor scale (1000).
pub const VEL_DENOM: i64 = 1_000_000;

/// Reciprocal of the time-discretization factor 0.01 applied to velocity
/// before it is added to position.
pub const STEP_DIV: i64 = 100;

/// Largest velocity magnitude per axis the update accepts; the update
/// provably maps velocities within this limit back within it.
pub const VEL_LIMIT: i64 = 100_000_000;

/// One optimizing agent: its position, velocity, current fitness and the
/// best position (with its fitness) it has ever occupied.
#[derive(Clone, Copy, PartialEq, Eq, Structural, Debug)]
pub struct Particle {
    pub pos: Position,
    pub velocity: Velocity,
    pub fitness: i64,
    pub bestfitness: i64,
    pub best_pos: Position,
}

/// The desirability of a position: highest at the fixed optimum and falling
/// off by one micro-unit per milli-unit of Euclidean distance from it.
pub open spec fn fitness_spec(p: Position) -> int {
    FITNESS_ONE - dist_spec(p.x as int, p.y as int, OPTIMAL_X as int, OPTIMAL_Y as int)
}

/// The fitness of a position inside the world is strictly positive and at
/// most `FITNESS_ONE`.
pub proof fn lemma_fitness_in_world_bounds(p: Position)
    requires
        in_world(p),
    ensures
        0 < fitness_spec(p) <= FITNESS_ONE,
{
    let dx = p.x - OPTIMAL_X as int;
    let dy = p.y - OPTIMAL_Y as int;
    assert(-900_000 <= dx <= 900_000);
    assert(-320_000 <= dy <= 320_000);
    assert(0 <= dx * dx + dy * dy < 1_000_000 * 1_000_000) by (nonlinear_arith)
        requires
            -900_000 <= dx <= 900_000,
            -320_000 <= dy <= 320_000,
    ;
    let d2 = (dx * dx + dy * dy) as nat;
    lemma_sqrt_floor(d2);
    let r = sqrt_floor(d2);
    if r >= 1_000_000 {
        assert(r * r >= 1_000_000 * 1_000_000) by (nonlinear_arith)
            requires
                r >= 1_000_000,
        ;
        assert(false);
    }
}

/// Compute the fitness of a position.  The result is a function of the
/// position and the fixed optimum alone: repeated calls on equal positions
/// return equal values.
pub fn calculate_fitness(pos: &Position) -> (f: i64)
    requires
        coords_within(*pos, COORD_LIMIT as int),
    ensures
        f as int == fitness_spec(*pos),
{
    let optimal_pos = Position { x: OPTIMAL_X, y: OPTIMAL_Y };
    let dist: u64 = get_dist(pos, &optimal_pos);
    FITNESS_ONE - (dist as i64)
}

impl Particle {
    /// Validity: the particle and its recorded best lie inside the world,
    /// and its velocity is within the machine limit per axis.
    pub open spec fn wf(self) -> bool {
        &&& in_world(self.pos)
        &&& in_world(self.best_pos)
        &&& -VEL_LIMIT <= self.velocity.x <= VEL_LIMIT
        &&& -VEL_LIMIT <= self.velocity.y <= VEL_LIMIT
    }

    /// A freshly spawned particle: its own position is its best so far,
    /// with both fitness records starting at zero.
    pub fn new(pos: Position, velocity: Velocity) -> (p: Particle)
        requires
            in_world(pos),
            -VEL_LIMIT <= velocity.x <= VEL_LIMIT,
            -VEL_LIMIT <= velocity.y <= VEL_LIMIT,
        ensures
            p.wf(),
            p.pos == pos,
            p.velocity == velocity,
            p.fitness == 0,
            p.bestfitness == 0,
            p.best_pos == pos,
    {
        Particle { pos, velocity, fitness: 0, bestfitness: 0, best_pos: pos }
    }
}

/// A particle after its personal-best refresh: the current fitness is
/// recorded, and the best fitness and best position are overwritten exactly
/// when the current fitness strictly exceeds the recorded best.
pub open spec fn refresh_spec(p: Particle) -> Particle {
    let f = fitness_spec(p.pos);
    if f > p.bestfitness {
        Particle { fitness: f as i64, bestfitness: f as i64, best_pos: p.pos, ..p }
    } else {
        Particle { fitness: f as i64, ..p }
    }
}

/// The refresh keeps a particle valid, never lowers its recorded best
/// fitness, and moves neither the particle nor its velocity.
pub proof fn lemma_refresh_wf(p: Particle)
    requires
        p.wf(),
    ensures
        refresh_spec(p).wf(),
        refresh_spec(p).bestfitness >= p.bestfitness,
        refresh_spec(p).pos == p.pos,
        refresh_spec(p).velocity == p.velocity,
{
}

/// Every particle of the population after its personal-best refresh.
pub open spec fn refresh_all(s: Seq<Particle>) -> Seq<Particle> {
    s.map_values(|p: Particle| refresh_spec(p))
}

/// The swarm's global best: the maximum recorded best fitness over the
/// population together with its position, the earliest particle winning
/// ties (later particles replace it only on strictly higher fitness).
pub open spec fn best_over(s: Seq<Particle>) -> (Position, i64)
    recommends
        s.len() >= 1,
    decreases s.len(),
{
    if s.len() <= 1 {
        (s[0].best_pos, s[0].bestfitness)
    } else {
        let prev = best_over(s.drop_last());
        if s.last().bestfitness > prev.1 {
            (s.last().best_pos, s.last().bestfitness)
        } else {
            prev
        }
    }
}

/// Law: the global best fitness is the maximum of the particles' recorded
/// best fitnesses, and the reported pair is the record of one particle.
pub proof fn lemma_global_best_is_max(s: Seq<Particle>)
    requires
        s.len() >= 1,
    ensures
        forall|i: int| 0 <= i < s.len() ==> #[trigger] s[i].bestfitness <= best_over(s).1,
        exists|i: int|
            0 <= i < s.len() && best_over(s).1 == #[trigger] s[i].bestfitness && best_over(s).0
                == s[i].best_pos,
    decreases s.len(),
{
    if s.len() == 1 {
        assert(s[0].bestfitness == best_over(s).1);
    } else {
        let t = s.drop_last();
        lemma_global_best_is_max(t);
        assert(forall|i: int| 0 <= i < t.len() ==> t[i] == s[i]);
        if s.last().bestfitness > best_over(t).1 {
            assert(s[s.len() - 1].bestfitness == best_over(s).1);
        } else {
            let w = choose|i: int|
                0 <= i < t.len() && best_over(t).1 == #[trigger] t[i].bestfitness && best_over(
                    t,
                ).0 == t[i].best_pos;
            assert(s[w].bestfitness == best_over(s).1);
        }
    }
}

/// Refresh one particle's personal best from its current position.
fn refresh_particle(p: &Particle) -> (r: Particle)
    requires
        p.wf(),
    ensures
        r == refresh_spec(*p),
        r.wf(),
        r.bestfitness >= p.bestfitness,
{
    proof {
        lemma_fitness_in_world_bounds(p.pos);
    }
    let f: i64 = calculate_fitness(&p.pos);
    if f > p.bestfitness {
        Particle { fitness: f, bestfitness: f, best_pos: p.pos, ..*p }
    } else {
        Particle { fitness: f, ..*p }
    }
}

/// Refresh every particle's personal best, then report the swarm's global
/// best position and fitness for this tick.
pub fn set_best(particles: &mut Vec<Particle>) -> (r: (Position, i64))
    requires
        old(particles)@.len() >= 1,
        forall|i: int| 0 <= i < old(particles)@.len() ==> #[trigger] old(particles)@[i].wf(),
    ensures
        final(particles)@.len() == old(particles)@.len(),
        final(particles)@ == refresh_all(old(particles)@),
        forall|i: int| 0 <= i < final(particles)@.len() ==> #[trigger] final(particles)@[i].wf(),
        forall|i: int|
            0 <= i < final(particles)@.len() ==> #[trigger] final(particles)@[i].bestfitness
                >= old(particles)@[i].bestfitness,
        r == best_over(final(particles)@),
        forall|i: int|
            0 <= i < final(particles)@.len() ==> #[trigger] final(particles)@[i].bestfitness
                <= r.1,
        exists|i: int|
            0 <= i < final(particles)@.len() && r.1 == #[trigger] final(particles)@[i].bestfitness
                && r.0 == final(particles)@[i].best_pos,
        in_world(r.0),
{
    let n: usize = particles.len();
    let mut out: Vec<Particle> = Vec::new();
    let first: Particle = refresh_particle(&particles[0]);
    out.push(first);
    let mut all_best_pos: Position = first.best_pos;
    let mut all_best_fit: i64 = first.bestfitness;
    let mut i: usize = 1;
    while i < n
        invariant
            1 <= i <= n,
            n == old(particles)@.len(),
            particles@ == old(particles)@,
            forall|j: int| 0 <= j < n ==> #[trigger] old(particles)@[j].wf(),
            out@.len() == i,
            forall|j: int| 0 <= j < i ==> out@[j] == refresh_spec(old(particles)@[j]),
            all_best_pos == best_over(out@).0,
            all_best_fit == best_over(out@).1,
        decreases n - i,
    {
        let ghost prev = out@;
        let p: Particle = refresh_particle(&particles[i]);
        out.push(p);
        proof {
            assert(out@.drop_last() =~= prev);
        }
        if p.bestfitness > all_best_fit {
            all_best_fit = p.bestfitness;
            all_best_pos = p.best_pos;
        }
        i += 1;
    }
    proof {
        assert(out@ =~= refresh_all(old(particles)@));
        lemma_global_best_is_max(out@);
        assert forall|j: int| 0 <= j < n implies #[trigger] out@[j].wf() by {
            lemma_refresh_wf(old(particles)@[j]);
        }
        let w = choose|i: int|
            0 <= i < out@.len() && best_over(out@).1 == #[trigger] out@[i].bestfitness
                && best_over(out@).0 == out@[i].best_pos;
        assert(out@[w].wf());
        assert(in_world(all_best_pos));
    }
    *particles = out;
    (all_best_pos, all_best_fit)
}

/// One axis of the PSO velocity rule, in fixed point: the retained fraction
/// of the previous velocity plus the random cognitive and social pulls
/// toward the personal and global bests, combined over the common
/// denominator `VEL_DENOM` and rounded toward zero.
pub open spec fn vel_axis_spec(v: int, cur: int, pbest: int, gbest: int, r1: int, r2: int) -> int {
    div_trunc(
        INERTIA_NUM * 1000 * v + ACCEL_NUM * r1 * (pbest - cur) + ACCEL_NUM * r2 * (gbest - cur),
        VEL_DENOM as int,
    )
}

/// Compute one velocity axis; the result stays within `VEL_LIMIT`.
fn vel_axis(v: i64, cur: i64, pbest: i64, gbest: i64, r1: u64, r2: u64) -> (nv: i64)
    requires
        -VEL_LIMIT <= v <= VEL_LIMIT,
        -HALF_X <= cur <= HALF_X,
        -HALF_X <= pbest <= HALF_X,
        -HALF_X <= gbest <= HALF_X,
        r1 <= RAND_SCALE,
        r2 <= RAND_SCALE,
    ensures
        nv as int == vel_axis_spec(v as int, cur as int, pbest as int, gbest as int, r1 as int, r2 as int),
        -VEL_LIMIT <= nv <= VEL_LIMIT,
{
    let r1i: i64 = r1 as i64;
    let r2i: i64 = r2 as i64;
    let dp: i64 = pbest - cur;
    let dg: i64 = gbest - cur;
    proof {
        assert(-1_680_000_000_000 <= (1400 * r1i) * dp <= 1_680_000_000_000) by (nonlinear_arith)
            requires
                0 <= r1i <= 1000,
                -1_200_000 <= dp <= 1_200_000,
        ;
        assert(-1_680_000_000_000 <= (1400 * r2i) * dg <= 1_680_000_000_000) by (nonlinear_arith)
            requires
                0 <= r2i <= 1000,
                -1_200_000 <= dg <= 1_200_000,
        ;
    }
    let num: i64 = 950_000 * v + 1400 * r1i * dp + 1400 * r2i * dg;
    let nv: i64 = div_trunc_i64(num, VEL_DENOM);
    proof {
        assert(num == INERTIA_NUM * 1000 * (v as int) + ACCEL_NUM * (r1 as int) * (pbest - cur)
            + ACCEL_NUM * (r2 as int) * (gbest - cur));
        lemma_div_trunc_mag(num as int, VEL_DENOM as int, 98_360_000_000_000);
        assert(abs_spec(nv as int) <= 98_360_000);
    }
    nv
}

/// Move one position axis: add the time-scaled velocity, then clamp into
/// the world interval `[-half, half]`.
fn pos_axis(cur: i64, nv: i64, half: i64) -> (np: i64)
    requires
        -VEL_LIMIT <= nv <= VEL_LIMIT,
        -half <= cur <= half,
        0 < half <= HALF_X,
    ensures
        np as int == clamp_spec(
            cur + div_trunc(nv as int, STEP_DIV as int),
            -(half as int),
            half as int,
        ),
        -half <= np <= half,
{
    let step: i64 = div_trunc_i64(nv, STEP_DIV);
    proof {
        lemma_div_trunc_mag(nv as int, STEP_DIV as int, VEL_LIMIT as int);
        assert(abs_spec(step as int) <= 1_000_000);
    }
    clamp_i64(cur + step, -half, half)
}

/// A particle after one movement update: the velocity turns by the PSO rule
/// with random factors `r1` and `r2`, the position advances by the
/// time-scaled new velocity and is clamped into the world per axis, and the
/// personal best is overwritten exactly when the fitness of the new
/// position strictly exceeds the recorded best.
pub open spec fn step_spec(p: Particle, gb: Position, r1: int, r2: int) -> Particle {
    let vx = vel_axis_spec(
        p.velocity.x as int,
        p.pos.x as int,
        p.best_pos.x as int,
        gb.x as int,
        r1,
        r2,
    );
    let vy = vel_axis_spec(
        p.velocity.y as int,
        p.pos.y as int,
        p.best_pos.y as int,
        gb.y as int,
        r1,
        r2,
    );
    let px = clamp_spec(p.pos.x + div_trunc(vx, STEP_DIV as int), -(HALF_X as int), HALF_X as int);
    let py = clamp_spec(p.pos.y + div_trunc(vy, STEP_DIV as int), -(HALF_Y as int), HALF_Y as int);
    let npos = Position { x: px as i64, y: py as i64 };
    let nvel = Velocity { x: vx as i64, y: vy as i64 };
    let f = fitness_spec(npos);
    if f > p.bestfitness {
        Particle { pos: npos, velocity: nvel, fitness: f as i64, bestfitness: f as i64, best_pos: npos }
    } else {
        Particle {
            pos: npos,
            velocity: nvel,
            fitness: f as i64,
            bestfitness: p.bestfitness,
            best_pos: p.best_pos,
        }
    }
}

/// Law: after any movement update the particle's position lies inside the
/// world rectangle on both axes.
pub proof fn lemma_position_clamped(p: Particle, gb: Position, r1: int, r2: int)
    ensures
        in_world(step_spec(p, gb, r1, r2).pos),
{
}

/// Law: neither the personal-best refresh nor the movement update ever
/// lowers a particle's recorded best fitness.
pub proof fn lemma_personal_best_monotone(p: Particle, gb: Position, r1: int, r2: int)
    ensures
        refresh_spec(p).bestfitness >= p.bestfitness,
        step_spec(p, gb, r1, r2).bestfitness >= p.bestfitness,
{
    assert(dist_spec(p.pos.x as int, p.pos.y as int, OPTIMAL_X as int, OPTIMAL_Y as int) >= 0);
    let npos = step_spec(p, gb, r1, r2).pos;
    assert(dist_spec(npos.x as int, npos.y as int, OPTIMAL_X as int, OPTIMAL_Y as int) >= 0);
}

/// Move one particle by the PSO rule, given this tick's global best and the
/// particle's two random factors.
pub fn update_particle(p: &mut Particle, global_best: Position, r1: u64, r2: u64)
    requires
        old(p).wf(),
        in_world(global_best),
        r1 <= RAND_SCALE,
        r2 <= RAND_SCALE,
    ensures
        *final(p) == step_spec(*old(p), global_best, r1 as int, r2 as int),
        final(p).wf(),
        final(p).bestfitness >= old(p).bestfitness,
        in_world(final(p).pos),
{
    let vx: i64 = vel_axis(p.velocity.x, p.pos.x, p.best_pos.x, global_best.x, r1, r2);
    let vy: i64 = vel_axis(p.velocity.y, p.pos.y, p.best_pos.y, global_best.y, r1, r2);
    let px: i64 = pos_axis(p.pos.x, vx, HALF_X);
    let py: i64 = pos_axis(p.pos.y, vy, HALF_Y);
    let npos = Position { x: px, y: py };
    proof {
        lemma_fitness_in_world_bounds(npos);
    }
    let f: i64 = calculate_fitness(&npos);
    if f > p.bestfitness {
        *p = Particle {
            pos: npos,
            velocity: Velocity { x: vx, y: vy },
            fitness: f,
            bestfitness: f,
            best_pos: npos,
        };
    } else {
        *p = Particle {
            pos: npos,
            velocity: Velocity { x: vx, y: vy },
            fitness: f,
            bestfitness: p.bestfitness,
            best_pos: p.best_pos,
        };
    }
}

/// Every particle of the population after the movement update, each with
/// its own pair of random factors.
pub open spec fn step_all(s: Seq<Particle>, gb: Position, rs: Seq<(u64, u64)>) -> Seq<Particle>
    recommends
        rs.len() == s.len(),
{
    Seq::new(s.len(), |i: int| step_spec(s[i], gb, rs[i].0 as int, rs[i].1 as int))
}

/// Advance the whole swarm one tick from given random factors: refresh all
/// personal bests, derive the global best, then move every particle by the
/// PSO rule using its own pair of draws.
pub fn swarm_step(particles: &mut Vec<Particle>, draws: &Vec<(u64, u64)>) -> (r: (Position, i64))
    requires
        old(particles)@.len() >= 1,
        draws@.len() == old(particles)@.len(),
        forall|i: int| 0 <= i < old(particles)@.len() ==> #[trigger] old(particles)@[i].wf(),
        forall|i: int|
            0 <= i < draws@.len() ==> #[trigger] draws@[i].0 <= RAND_SCALE && draws@[i].1
                <= RAND_SCALE,
    ensures
        final(particles)@.len() == old(particles)@.len(),
        r == best_over(refresh_all(old(particles)@)),
        final(particles)@ == step_all(refresh_all(old(particles)@), r.0, draws@),
        forall|i: int| 0 <= i < final(particles)@.len() ==> #[trigger] final(particles)@[i].wf(),
        forall|i: int|
            0 <= i < final(particles)@.len() ==> #[trigger] final(particles)@[i].bestfitness
                >= old(particles)@[i].bestfitness,
        forall|i: int|
            0 <= i < final(particles)@.len() ==> in_world(#[trigger] final(particles)@[i].pos),
{
    let best: (Position, i64) = set_best(particles);
    let n: usize = particles.len();
    let mut out: Vec<Particle> = Vec::new();
    let mut i: usize = 0;
    while i < n
        invariant
            i <= n,
            n == particles@.len(),
            n == draws@.len(),
            particles@ == refresh_all(old(particles)@),
            forall|j: int| 0 <= j < n ==> #[trigger] particles@[j].wf(),
            forall|j: int|
                0 <= j < n ==> #[trigger] particles@[j].bestfitness >= old(
                    particles,
                )@[j].bestfitness,
            forall|j: int|
                0 <= j < n ==> #[trigger] draws@[j].0 <= RAND_SCALE && draws@[j].1 <= RAND_SCALE,
            in_world(best.0),
            out@.len() == i,
            forall|j: int|
                0 <= j < i ==> #[trigger] out@[j] == step_spec(
                    particles@[j],
                    best.0,
                    draws@[j].0 as int,
                    draws@[j].1 as int,
                ),
            forall|j: int| 0 <= j < i ==> #[trigger] out@[j].wf(),
            forall|j: int|
                0 <= j < i ==> #[trigger] out@[j].bestfitness >= particles@[j].bestfitness,
        decreases n - i,
    {
        let mut p: Particle = particles[i];
        update_particle(&mut p, best.0, draws[i].0, draws[i].1);
        out.push(p);
        i += 1;
    }
    proof {
        assert(out@ =~= step_all(refresh_all(old(particles)@), best.0, draws@));
    }
    *particles = out;
    best
}

/// Advance the whole swarm one tick, drawing the two random factors of each
/// particle freshly; the final state is the deterministic update for some
/// sequence of in-range draws.
pub fn swarm_impl(particles: &mut Vec<Particle>) -> (r: (Position, i64))
    requires
        old(particles)@.len() >= 1,
        forall|i: int| 0 <= i < old(particles)@.len() ==> #[trigger] old(particles)@[i].wf(),
    ensures
        final(particles)@.len() == old(particles)@.len(),
        r == best_over(refresh_all(old(particles)@)),
        exists|rs: Seq<(u64, u64)>|
            rs.len() == old(particles)@.len() && (forall|i: int|
                0 <= i < rs.len() ==> #[trigger] rs[i].0 < RAND_SCALE && rs[i].1 < RAND_SCALE)
                && final(particles)@ == step_all(refresh_all(old(particles)@), r.0, rs),
        forall|i: int| 0 <= i < final(particles)@.len() ==> #[trigger] final(particles)@[i].wf(),
        forall|i: int|
            0 <= i < final(particles)@.len() ==> #[trigger] final(particles)@[i].bestfitness
                >= old(particles)@[i].bestfitness,
        forall|i: int|
            0 <= i < final(particles)@.len() ==> in_world(#[trigger] final(particles)@[i].pos),
{
    let n: usize = particles.len();
    let mut draws: Vec<(u64, u64)> = Vec::new();
    let mut i: usize = 0;
    while i < n
        invariant
            i <= n,
            draws@.len() == i,
            forall|j: int|
                0 <= j < i ==> #[trigger] draws@[j].0 < RAND_SCALE && draws@[j].1 < RAND_SCALE,
        decreases n - i,
    {
        let r1: u64 = random_below(RAND_SCALE);
        let r2: u64 = random_below(RAND_SCALE);
        draws.push((r1, r2));
        i += 1;
    }
    let best: (Position, i64) = swarm_step(particles, &draws);
    proof {
        assert(particles@ == step_all(refresh_all(old(particles)@), best.0, draws@));
    }
    best
}

} // verus!
