use pso_swarm::geom::{Position, Velocity};
use pso_swarm::predator::{predator_move, Predator};
use pso_swarm::swarm::{update_particle, Particle};

fn particle_at(x: i64, y: i64) -> Particle {
    Particle::new(Position { x, y }, Velocity { x: 0, y: 0 })
}

fn predator_at(x: i64, y: i64) -> Predator {
    Predator::new(Position { x, y }, Velocity { x: 0, y: 0 })
}

#[test]
fn predator_pursues_along_x() {
    // Nearest particle 100 units away on +x, farther than the 50-unit
    // threshold: over 0.1 s at 100 units/s the predator advances 10 units
    // along +x and faces +x.
    let mut pred = predator_at(0, 0);
    let swarm = vec![particle_at(100_000, 0)];
    predator_move(&mut pred, &swarm, 100);
    assert_eq!(pred.pos, Position { x: 10_000, y: 0 });
    assert_eq!(pred.facing, Velocity { x: 100_000, y: 0 });
}

#[test]
fn predator_pursues_at_sixty_units() {
    // min_dist = 60 > 50: the position changes toward the particle.
    let mut pred = predator_at(0, 0);
    let swarm = vec![particle_at(60_000, 0)];
    predator_move(&mut pred, &swarm, 1000);
    // One full second at 100 units/s.
    assert_eq!(pred.pos, Position { x: 100_000, y: 0 });
    assert_eq!(pred.facing, Velocity { x: 60_000, y: 0 });
}

#[test]
fn predator_holds_at_thirty_units() {
    // min_dist = 30 <= 50: the position is unchanged, the orientation
    // still turns toward the particle.
    let mut pred = predator_at(0, 0);
    let swarm = vec![particle_at(30_000, 0)];
    predator_move(&mut pred, &swarm, 1000);
    assert_eq!(pred.pos, Position { x: 0, y: 0 });
    assert_eq!(pred.facing, Velocity { x: 30_000, y: 0 });
}

#[test]
fn predator_holds_at_threshold_exactly() {
    // A 30-40-50 triangle: exactly 50 units, which is not beyond the
    // threshold, so the predator holds.
    let mut pred = predator_at(0, 0);
    let swarm = vec![particle_at(30_000, 40_000)];
    predator_move(&mut pred, &swarm, 1000);
    assert_eq!(pred.pos, Position { x: 0, y: 0 });
    assert_eq!(pred.facing, Velocity { x: 30_000, y: 40_000 });
}

#[test]
fn predator_diagonal_pursuit() {
    // 100 units away on a 3-4-5 diagonal, half a second: 50 units of
    // travel, split 30/40 between the axes.
    let mut pred = predator_at(0, 0);
    let swarm = vec![particle_at(60_000, 80_000)];
    predator_move(&mut pred, &swarm, 500);
    assert_eq!(pred.pos, Position { x: 30_000, y: 40_000 });
    assert_eq!(pred.facing, Velocity { x: 60_000, y: 80_000 });
}

#[test]
fn predator_coincident_particle_changes_nothing() {
    // Zero-length direction: treated as holding without reorienting.
    let mut pred = predator_at(5000, 5000);
    pred.facing = Velocity { x: 7, y: 8 };
    let swarm = vec![particle_at(5000, 5000)];
    predator_move(&mut pred, &swarm, 1000);
    assert_eq!(pred.pos, Position { x: 5000, y: 5000 });
    assert_eq!(pred.facing, Velocity { x: 7, y: 8 });
}

#[test]
fn predator_tracks_nearest_particle() {
    // The second particle is nearer; it decides the state.
    let mut pred = predator_at(0, 0);
    let swarm = vec![particle_at(100_000, 0), particle_at(40_000, 0)];
    predator_move(&mut pred, &swarm, 1000);
    assert_eq!(pred.pos, Position { x: 0, y: 0 });
    assert_eq!(pred.facing, Velocity { x: 40_000, y: 0 });
}

#[test]
fn predator_first_particle_wins_distance_ties() {
    // Two particles at the same distance: the earlier one is chosen.
    let mut pred = predator_at(0, 0);
    let swarm = vec![particle_at(60_000, 0), particle_at(0, 60_000)];
    predator_move(&mut pred, &swarm, 100);
    assert_eq!(pred.facing, Velocity { x: 60_000, y: 0 });
    assert_eq!(pred.pos, Position { x: 10_000, y: 0 });
}

#[test]
fn predator_zero_elapsed_time_only_reorients() {
    let mut pred = predator_at(0, 0);
    let swarm = vec![particle_at(100_000, 0)];
    predator_move(&mut pred, &swarm, 0);
    assert_eq!(pred.pos, Position { x: 0, y: 0 });
    assert_eq!(pred.facing, Velocity { x: 100_000, y: 0 });
}

#[test]
fn particle_round_trip_and_replay() {
    let mut p = Particle::new(Position { x: 123, y: -456 }, Velocity { x: 789, y: -12 });
    p.fitness = 11;
    p.bestfitness = 22;
    p.best_pos = Position { x: -33, y: 44 };
    let raw = p.to_raw();
    assert_eq!(raw.len(), 8);
    let q = Particle::from_raw(&raw).unwrap();
    assert_eq!(p, q);
    // Replaying one update from the restored state gives the same result.
    let mut p2 = p;
    let mut q2 = q;
    update_particle(&mut p2, Position { x: 100_000, y: 0 }, 250, 750);
    update_particle(&mut q2, Position { x: 100_000, y: 0 }, 250, 750);
    assert_eq!(p2, q2);
}

#[test]
fn predator_round_trip_and_replay() {
    let mut pred = Predator::new(Position { x: 55, y: -66 }, Velocity { x: 7, y: -8 });
    pred.facing = Velocity { x: 9, y: 10 };
    let raw = pred.to_raw();
    assert_eq!(raw.len(), 6);
    let restored = Predator::from_raw(&raw).unwrap();
    assert_eq!(pred, restored);
    let swarm = vec![particle_at(100_000, 0)];
    let mut a = pred;
    let mut b = restored;
    predator_move(&mut a, &swarm, 100);
    predator_move(&mut b, &swarm, 100);
    assert_eq!(a, b);
}

#[test]
fn from_raw_rejects_wrong_length() {
    assert!(Particle::from_raw(&vec![1, 2, 3]).is_none());
    assert!(Particle::from_raw(&vec![0; 9]).is_none());
    assert!(Predator::from_raw(&vec![0; 5]).is_none());
    assert!(Predator::from_raw(&vec![0; 7]).is_none());
}
