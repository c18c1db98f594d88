//! Plain-integer records of simulation state, with proved round trips:
//! restoring a serialized particle or predator gives back exactly the
//! value that was serialized, so a tick replayed from the restored state
//! is the tick of the original.

use vstd::prelude::*;
use crate::geom::{Position, Velocity};
use crate::predator::{pred_step_spec, Predator};
use crate::swarm::{step_spec, Particle};

verus! {

/// The eight fields of a particle, as one flat record.
pub open spec fn particle_raw_spec(p: Particle) -> Seq<i64> {
    seq![
        p.pos.x,
        p.pos.y,
        p.velocity.x,
        p.velocity.y,
        p.fitness,
        p.bestfitness,
        p.best_pos.x,
        p.best_pos.y,
    ]
}

/// The particle a flat record stands for, if it has exactly eight fields.
pub open spec fn particle_parse_spec(s: Seq<i64>) -> Option<Particle> {
    if s.len() == 8 {
        Some(
            Particle {
                pos: Position { x: s[0], y: s[1] },
                velocity: Velocity { x: s[2], y: s[3] },
                fitness: s[4],
                bestfitness: s[5],
                best_pos: Position { x: s[6], y: s[7] },
            },
        )
    } else {
        None
    }
}

/// The six fields of a predator, as one flat record.
pub open spec fn predator_raw_spec(p: Predator) -> Seq<i64> {
    seq![p.pos.x, p.pos.y, p.velocity.x, p.velocity.y, p.facing.x, p.facing.y]
}

/// The predator a flat record stands for, if it has exactly six fields.
pub open spec fn predator_parse_spec(s: Seq<i64>) -> Option<Predator> {
    if s.len() == 6 {
        Some(
            Predator {
                pos: Position { x: s[0], y: s[1] },
                velocity: Velocity { x: s[2], y: s[3] },
                facing: Velocity { x: s[4], y: s[5] },
            },
        )
    } else {
        None
    }
}

/// Law: restoring a serialized particle gives back exactly the particle,
/// and one movement update replayed from the restored state is the update
/// of the original.
pub proof fn lemma_particle_round_trip(p: Particle, gb: Position, r1: int, r2: int)
    ensures
        particle_parse_spec(particle_raw_spec(p)) == Some(p),
        step_spec(particle_parse_spec(particle_raw_spec(p)).unwrap(), gb, r1, r2) == step_spec(
            p,
            gb,
            r1,
            r2,
        ),
{
}

/// Law: restoring a serialized predator gives back exactly the predator,
/// and one tick replayed from the restored state is the tick of the
/// original.
pub proof fn lemma_predator_round_trip(p: Predator, s: Seq<Particle>, dt: int)
    ensures
        predator_parse_spec(predator_raw_spec(p)) == Some(p),
        pred_step_spec(predator_parse_spec(predator_raw_spec(p)).unwrap(), s, dt)
            == pred_step_spec(p, s, dt),
{
}

impl Particle {
    /// Serialize to the flat eight-field record.
    pub fn to_raw(&self) -> (r: Vec<i64>)
        ensures
            r@ == particle_raw_spec(*self),
    {
        let mut v: Vec<i64> = Vec::new();
        v.push(self.pos.x);
        v.push(self.pos.y);
        v.push(self.velocity.x);
        v.push(self.velocity.y);
        v.push(self.fitness);
        v.push(self.bestfitness);
        v.push(self.best_pos.x);
        v.push(self.best_pos.y);
        proof {
            assert(v@ =~= particle_raw_spec(*self));
        }
        v
    }

    /// Restore from a flat record: exactly eight fields, else nothing.
    pub fn from_raw(raw: &Vec<i64>) -> (r: Option<Particle>)
        ensures
            r == particle_parse_spec(raw@),
    {
        if raw.len() == 8 {
            Some(
                Particle {
                    pos: Position { x: raw[0], y: raw[1] },
                    velocity: Velocity { x: raw[2], y: raw[3] },
                    fitness: raw[4],
                    bestfitness: raw[5],
                    best_pos: Position { x: raw[6], y: raw[7] },
                },
            )
        } else {
            None
        }
    }
}

impl Predator {
    /// Serialize to the flat six-field record.
    pub fn to_raw(&self) -> (r: Vec<i64>)
        ensures
            r@ == predator_raw_spec(*self),
    {
        let mut v: Vec<i64> = Vec::new();
        v.push(self.pos.x);
        v.push(self.pos.y);
        v.push(self.velocity.x);
        v.push(self.velocity.y);
        v.push(self.facing.x);
        v.push(self.facing.y);
        proof {
            assert(v@ =~= predator_raw_spec(*self));
        }
        v
    }

    /// Restore from a flat record: exactly six fields, else nothing.
    pub fn from_raw(raw: &Vec<i64>) -> (r: Option<Predator>)
        ensures
            r == predator_parse_spec(raw@),
    {
        if raw.len() == 6 {
            Some(
                Predator {
                    pos: Position { x: raw[0], y: raw[1] },
                    velocity: Velocity { x: raw[2], y: raw[3] },
                    facing: Velocity { x: raw[4], y: raw[5] },
                },
            )
        } else {
            None
        }
    }
}

} // verus!
