use pso_swarm::geom::{get_dist, Position, Velocity};
use pso_swarm::math::isqrt_u64;
use pso_swarm::swarm::{
    calculate_fitness, set_best, swarm_impl, swarm_step, update_particle, Particle,
};

fn particle_at(x: i64, y: i64) -> Particle {
    Particle::new(Position { x, y }, Velocity { x: 0, y: 0 })
}

#[test]
fn isqrt_small_values() {
    assert_eq!(isqrt_u64(0), 0);
    assert_eq!(isqrt_u64(1), 1);
    assert_eq!(isqrt_u64(2), 1);
    assert_eq!(isqrt_u64(3), 1);
    assert_eq!(isqrt_u64(4), 2);
    assert_eq!(isqrt_u64(999_999), 999);
    assert_eq!(isqrt_u64(1_000_000), 1000);
}

#[test]
fn isqrt_largest_value() {
    assert_eq!(isqrt_u64(u64::MAX), 4_294_967_295);
}

#[test]
fn dist_exact_triangle() {
    let a = Position { x: 0, y: 0 };
    let b = Position { x: 3000, y: 4000 };
    assert_eq!(get_dist(&a, &b), 5000);
    assert_eq!(get_dist(&b, &a), 5000);
}

#[test]
fn dist_rounds_down() {
    let a = Position { x: 0, y: 0 };
    let b = Position { x: 10, y: 10 };
    // sqrt(200) = 14.14..., rounded down.
    assert_eq!(get_dist(&a, &b), 14);
}

#[test]
fn fitness_at_optimum_is_one() {
    let f = calculate_fitness(&Position { x: -300_000, y: 0 });
    assert_eq!(f, 1_000_000);
}

#[test]
fn fitness_at_origin() {
    // 300 world units from the optimum: 1.0 - 0.001 * 300 = 0.7.
    let f = calculate_fitness(&Position { x: 0, y: 0 });
    assert_eq!(f, 700_000);
}

#[test]
fn fitness_exact_three_four_five() {
    // 500 world units away: 1.0 - 0.001 * 500 = 0.5.
    let f = calculate_fitness(&Position { x: 0, y: 400_000 });
    assert_eq!(f, 500_000);
}

#[test]
fn fitness_is_deterministic() {
    let p = Position { x: 123_456, y: -78_910 };
    let first = calculate_fitness(&p);
    for _ in 0..10 {
        assert_eq!(calculate_fitness(&p), first);
    }
}

#[test]
fn set_best_picks_maximum_personal_best() {
    let mut a = particle_at(0, 0);
    a.bestfitness = 1_500_000;
    a.best_pos = Position { x: 10, y: 20 };
    let mut b = particle_at(1000, 0);
    b.bestfitness = 2_000_000;
    b.best_pos = Position { x: 1, y: 2 };
    let mut swarm = vec![a, b];
    let (pos, fit) = set_best(&mut swarm);
    assert_eq!(fit, 2_000_000);
    assert_eq!(pos, Position { x: 1, y: 2 });
}

#[test]
fn set_best_first_particle_wins_ties() {
    let mut a = particle_at(0, 0);
    a.bestfitness = 2_000_000;
    a.best_pos = Position { x: 1, y: 2 };
    let mut b = particle_at(1000, 0);
    b.bestfitness = 2_000_000;
    b.best_pos = Position { x: 3, y: 4 };
    let mut swarm = vec![a, b];
    let (pos, fit) = set_best(&mut swarm);
    assert_eq!(fit, 2_000_000);
    assert_eq!(pos, Position { x: 1, y: 2 });
}

#[test]
fn set_best_refreshes_personal_best() {
    // A fresh particle at the optimum: its recorded best (zero) is beaten
    // by the current fitness, so the refresh overwrites it.
    let mut swarm = vec![particle_at(-300_000, 0)];
    let (pos, fit) = set_best(&mut swarm);
    assert_eq!(fit, 1_000_000);
    assert_eq!(pos, Position { x: -300_000, y: 0 });
    assert_eq!(swarm[0].bestfitness, 1_000_000);
    assert_eq!(swarm[0].best_pos, Position { x: -300_000, y: 0 });
    assert_eq!(swarm[0].fitness, 1_000_000);
}

#[test]
fn set_best_strict_improvement_only() {
    // The recorded best already equals the current fitness: a tie, so the
    // recorded best position must stay.
    let mut a = particle_at(0, 0);
    a.bestfitness = 700_000;
    a.best_pos = Position { x: 42, y: 43 };
    let mut swarm = vec![a];
    let (pos, fit) = set_best(&mut swarm);
    assert_eq!(fit, 700_000);
    assert_eq!(pos, Position { x: 42, y: 43 });
    assert_eq!(swarm[0].best_pos, Position { x: 42, y: 43 });
}

#[test]
fn update_zero_when_already_at_best() {
    // A particle sitting on its own best, which is also the global best:
    // every pull is zero, so with full random factors the velocity stays
    // zero and the position does not move.
    let mut p = particle_at(0, 0);
    p.bestfitness = 700_000;
    update_particle(&mut p, Position { x: 0, y: 0 }, 1000, 1000);
    assert_eq!(p.velocity, Velocity { x: 0, y: 0 });
    assert_eq!(p.pos, Position { x: 0, y: 0 });
    assert_eq!(p.bestfitness, 700_000);
}

#[test]
fn update_exact_social_pull() {
    // Only the social term pulls: v' = 1.0 * 1.4 * (100 - 0) = 140 units,
    // position advances by v' * 0.01 = 1.4 units.
    let mut p = particle_at(0, 0);
    p.bestfitness = 700_000;
    update_particle(&mut p, Position { x: 100_000, y: 0 }, 1000, 1000);
    assert_eq!(p.velocity, Velocity { x: 140_000, y: 0 });
    assert_eq!(p.pos, Position { x: 1400, y: 0 });
    // Farther from the optimum than before: the recorded best stays.
    assert_eq!(p.fitness, 698_600);
    assert_eq!(p.bestfitness, 700_000);
    assert_eq!(p.best_pos, Position { x: 0, y: 0 });
}

#[test]
fn update_improvement_overwrites_best() {
    // Pulled toward the optimum: the new position is closer, so the
    // personal best is overwritten with it.
    let mut p = particle_at(0, 0);
    p.bestfitness = 700_000;
    update_particle(&mut p, Position { x: -100_000, y: 0 }, 1000, 1000);
    assert_eq!(p.velocity, Velocity { x: -140_000, y: 0 });
    assert_eq!(p.pos, Position { x: -1400, y: 0 });
    assert_eq!(p.fitness, 701_400);
    assert_eq!(p.bestfitness, 701_400);
    assert_eq!(p.best_pos, Position { x: -1400, y: 0 });
}

#[test]
fn update_clamps_position_to_world_edge() {
    // A particle on the right edge with a huge outward velocity: the
    // position sticks to the edge, the velocity is left unchanged.
    let mut p = Particle::new(
        Position { x: 600_000, y: 0 },
        Velocity { x: 100_000_000, y: 0 },
    );
    p.bestfitness = 2_000_000;
    p.best_pos = Position { x: 600_000, y: 0 };
    update_particle(&mut p, Position { x: 600_000, y: 0 }, 1000, 1000);
    // v' = 0.95 * 100_000 units with zero pulls.
    assert_eq!(p.velocity, Velocity { x: 95_000_000, y: 0 });
    assert_eq!(p.pos, Position { x: 600_000, y: 0 });
}

#[test]
fn swarm_step_single_particle() {
    let mut swarm = vec![particle_at(0, 0)];
    let draws = vec![(1000u64, 1000u64)];
    let (pos, fit) = swarm_step(&mut swarm, &draws);
    assert_eq!(fit, 700_000);
    assert_eq!(pos, Position { x: 0, y: 0 });
    assert_eq!(swarm[0].pos, Position { x: 0, y: 0 });
    assert_eq!(swarm[0].velocity, Velocity { x: 0, y: 0 });
    assert_eq!(swarm[0].bestfitness, 700_000);
}

#[test]
fn swarm_impl_keeps_invariants_over_ticks() {
    let mut swarm = vec![
        particle_at(0, 0),
        particle_at(250_000, -100_000),
        Particle::new(Position { x: -600_000, y: 320_000 }, Velocity { x: 900, y: -900 }),
        Particle::new(Position { x: 599_000, y: -319_000 }, Velocity { x: -500, y: 500 }),
    ];
    let mut prev_best: Vec<i64> = swarm.iter().map(|p| p.bestfitness).collect();
    let mut prev_global = i64::MIN;
    for _ in 0..50 {
        let (_, fit) = swarm_impl(&mut swarm);
        // The report is the maximum at refresh time; the post-move check
        // can only raise the recorded bests further.
        let max_best = swarm.iter().map(|p| p.bestfitness).max().unwrap();
        assert!(max_best >= fit);
        assert!(fit >= prev_global);
        prev_global = fit;
        for (p, prev) in swarm.iter().zip(prev_best.iter()) {
            assert!(p.bestfitness >= *prev);
            assert!(-600_000 <= p.pos.x && p.pos.x <= 600_000);
            assert!(-320_000 <= p.pos.y && p.pos.y <= 320_000);
            assert!(-100_000_000 <= p.velocity.x && p.velocity.x <= 100_000_000);
            assert!(-100_000_000 <= p.velocity.y && p.velocity.y <= 100_000_000);
        }
        prev_best = swarm.iter().map(|p| p.bestfitness).collect();
    }
}
