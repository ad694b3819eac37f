use boids::boid::classify_forces;
use boids::boid::Boid;
use boids::boid::Classification;
use boids::boids_simulation::BoidsSimulationParameters;
use boids::flock::Flock;
use boids::vec2::clamp_len;
use boids::vec2::div_comp;
use boids::vec2::scale_to;
use boids::vec2::sqrt_ceil_u128;
use boids::vec2::Vec2;

fn v(x: i64, y: i64) -> Vec2 {
    Vec2 { x, y }
}

fn default_flock() -> Flock {
    Flock::new(-850_000, 850_000, -475_000, 475_000)
}

fn zero_weight_params() -> BoidsSimulationParameters {
    let mut p = BoidsSimulationParameters::default();
    p.separation_weight = 0;
    p.alignment_weight = 0;
    p.cohesion_weight = 0;
    p.avoidance_weight = 0;
    p
}

#[test]
fn sqrt_ceil_small_values() {
    assert_eq!(sqrt_ceil_u128(0), 0);
    assert_eq!(sqrt_ceil_u128(1), 1);
    assert_eq!(sqrt_ceil_u128(2), 2);
    assert_eq!(sqrt_ceil_u128(4), 2);
    assert_eq!(sqrt_ceil_u128(5), 3);
    assert_eq!(sqrt_ceil_u128(1_000_000), 1_000);
    assert_eq!(sqrt_ceil_u128(1_000_001), 1_001);
}

#[test]
fn scale_to_exact_pythagorean() {
    // (3, 4) has exact length 5, so scaling to 10 doubles it.
    assert_eq!(scale_to(v(3, 4), 10), v(6, 8));
    assert_eq!(scale_to(v(-3, 4), 10), v(-6, 8));
    assert_eq!(scale_to(v(3, -4), 10), v(6, -8));
}

#[test]
fn scale_to_zero_vector_stays_zero() {
    assert_eq!(scale_to(v(0, 0), 1_000), v(0, 0));
}

#[test]
fn scale_to_never_exceeds_target_length() {
    let r = scale_to(v(1, 1), 5);
    assert!(r.x * r.x + r.y * r.y <= 25);
}

#[test]
fn clamp_len_short_vector_unchanged() {
    assert_eq!(clamp_len(v(3, 4), 5), v(3, 4));
    assert_eq!(clamp_len(v(3, 4), 1_000), v(3, 4));
}

#[test]
fn clamp_len_long_vector_rescaled() {
    assert_eq!(clamp_len(v(6, 8), 5), v(3, 4));
    assert_eq!(clamp_len(v(-1000, 0), 500), v(-500, 0));
}

#[test]
fn div_comp_rounds_toward_zero() {
    assert_eq!(div_comp(7, 2), 3);
    assert_eq!(div_comp(-7, 2), -3);
    assert_eq!(div_comp(0, 5), 0);
}

#[test]
fn params_defaults() {
    let p = BoidsSimulationParameters::default();
    assert_eq!(p.num_boids, 100);
    assert_eq!(p.max_speed, 5_000);
    assert_eq!(p.max_force, 500);
    assert_eq!(p.separation_weight, 1);
    assert_eq!(p.alignment_weight, 1);
    assert_eq!(p.avoidance_weight, 1);
    assert_eq!(p.cohesion_weight, 1);
    assert_eq!(p.neighbor_radius, 50_000);
    assert_eq!(p.avoidance_radius, 75_000);
}

#[test]
fn params_reset_restores_defaults() {
    let mut p = BoidsSimulationParameters::default();
    p.max_speed = 9_999;
    p.cohesion_weight = -3;
    p.reset();
    assert_eq!(p, BoidsSimulationParameters::default());
}

// Forces are zero without a neighbour strictly inside the radius.
#[test]
fn forces_zero_without_neighbors() {
    let me = Boid::new(v(0, 0), v(100, 200));
    // Only the boid itself (distance zero) and one boid outside the radius.
    let far = Boid::new(v(60_000, 0), v(-300, 0));
    let boids = vec![me, far];
    let sep = me.calculate_separation_force(&boids, 1, 500, 50_000);
    let ali = me.calculate_alignment_force(&boids, 1, 5_000, 500, 50_000);
    let coh = me.calculate_cohesion_force(&boids, 1, 500, 5_000, 50_000);
    assert_eq!(sep, v(0, 0));
    assert_eq!(ali, v(0, 0));
    assert_eq!(coh, v(0, 0));
}

#[test]
fn forces_zero_with_zero_radius() {
    let me = Boid::new(v(0, 0), v(100, 200));
    let near = Boid::new(v(10, 0), v(-300, 0));
    let boids = vec![me, near];
    assert_eq!(me.calculate_separation_force(&boids, 1, 500, 0), v(0, 0));
    assert_eq!(me.calculate_alignment_force(&boids, 1, 5_000, 500, 0), v(0, 0));
    assert_eq!(me.calculate_cohesion_force(&boids, 1, 500, 5_000, 0), v(0, 0));
}

#[test]
fn alignment_exact_value() {
    let me = Boid::new(v(0, 0), v(0, 0));
    let other = Boid::new(v(1_000, 0), v(2_000, 0));
    let boids = vec![me, other];
    // Average neighbour velocity (2000, 0), rescaled to 5000, steering
    // (5000, 0), clamped to 500.
    assert_eq!(me.calculate_alignment_force(&boids, 1, 5_000, 500, 50_000), v(500, 0));
}

#[test]
fn cohesion_exact_value() {
    let me = Boid::new(v(0, 0), v(0, 0));
    let other = Boid::new(v(10_000, 0), v(0, 0));
    let boids = vec![me, other];
    // Average neighbour position (10000, 0); desired velocity (5000, 0);
    // steering clamped to 500.
    assert_eq!(me.calculate_cohesion_force(&boids, 1, 500, 5_000, 50_000), v(500, 0));
}

#[test]
fn cohesion_weight_scales_force() {
    let me = Boid::new(v(0, 0), v(0, 0));
    let other = Boid::new(v(10_000, 0), v(0, 0));
    let boids = vec![me, other];
    assert_eq!(me.calculate_cohesion_force(&boids, -2, 500, 5_000, 50_000), v(-1_000, 0));
}

// Avoidance is zero at or beyond the radius, and nonzero strictly inside.
#[test]
fn avoidance_zero_outside_radius() {
    let me = Boid::new(v(0, 0), v(0, 0));
    assert_eq!(me.calculate_avoidance_force(v(100_000, 0), 1, 500, 75_000), v(0, 0));
    // Exactly at the radius: still zero (strict comparison).
    assert_eq!(me.calculate_avoidance_force(v(75_000, 0), 1, 500, 75_000), v(0, 0));
    // Zero radius matches nothing.
    assert_eq!(me.calculate_avoidance_force(v(10, 0), 1, 500, 0), v(0, 0));
}

#[test]
fn avoidance_inside_radius_points_away() {
    let me = Boid::new(v(0, 0), v(0, 0));
    let force = me.calculate_avoidance_force(v(10_000, 0), 1, 500, 75_000);
    // Unit direction away is (-1000, 0), clamped to 500.
    assert_eq!(force, v(-500, 0));
}

// The integrator caps the speed: |velocity|^2 <= max_speed^2 afterwards.
#[test]
fn apply_forces_clamps_speed() {
    let mut b = Boid::new(v(0, 0), v(4_000, 3_000));
    b.acceleration = v(10_000, 0);
    b.apply_forces(5_000);
    // (14000, 3000) rescaled down to length <= 5000.
    assert_eq!(b.velocity, v(4_888, 1_047));
    assert!(b.velocity.x * b.velocity.x + b.velocity.y * b.velocity.y <= 5_000 * 5_000);
    assert_eq!(b.acceleration, v(0, 0));
    assert_eq!(b.position, v(4_888, 1_047));
}

#[test]
fn apply_forces_keeps_slow_velocity() {
    let mut b = Boid::new(v(100, 200), v(300, -400));
    b.acceleration = v(10, 10);
    b.apply_forces(5_000);
    assert_eq!(b.velocity, v(310, -390));
    assert_eq!(b.position, v(410, -190));
    assert_eq!(b.acceleration, v(0, 0));
}

// Wrapping snaps a coordinate beyond a bound to the opposite bound and
// leaves the boid inside the closed domain.
#[test]
fn wrap_snaps_to_opposite_edge() {
    let mut b = Boid::new(v(900_000, 0), v(0, 0));
    b.wrap(-850_000, 850_000, -475_000, 475_000);
    assert_eq!(b.position, v(-850_000, 0));

    let mut b2 = Boid::new(v(-900_001, 480_000), v(0, 0));
    b2.wrap(-850_000, 850_000, -475_000, 475_000);
    assert_eq!(b2.position, v(850_000, -475_000));
}

#[test]
fn wrap_keeps_coordinate_exactly_on_bound() {
    let mut b = Boid::new(v(850_000, 475_000), v(0, 0));
    b.wrap(-850_000, 850_000, -475_000, 475_000);
    assert_eq!(b.position, v(850_000, 475_000));
}

#[test]
fn forces_zero_with_negative_radius() {
    let me = Boid::new(v(0, 0), v(100, 200));
    let near = Boid::new(v(10, 0), v(-300, 0));
    let boids = vec![me, near];
    assert_eq!(me.calculate_separation_force(&boids, 1, 500, -50_000), v(0, 0));
    assert_eq!(me.calculate_avoidance_force(v(10, 0), 1, 500, -50_000), v(0, 0));
}

#[test]
fn wrap_leaves_interior_alone() {
    let mut b = Boid::new(v(123, -456), v(7, 8));
    b.wrap(-850_000, 850_000, -475_000, 475_000);
    assert_eq!(b.position, v(123, -456));
    assert_eq!(b.velocity, v(7, 8));
}

// Classification keeps the previous tag on any tie, all-zero included.
#[test]
fn classification_tie_keeps_previous_tag() {
    let z = v(0, 0);
    assert_eq!(classify_forces(z, z, z, z, Classification::Cohesion), Classification::Cohesion);
    let e = v(3, 4);
    assert_eq!(classify_forces(e, e, e, e, Classification::Neutral), Classification::Neutral);
    // A tie between the two largest also keeps the old tag.
    assert_eq!(
        classify_forces(v(5, 0), v(0, 5), z, z, Classification::Avoidance),
        Classification::Avoidance
    );
}

#[test]
fn classification_strict_winner() {
    let z = v(0, 0);
    assert_eq!(classify_forces(v(2, 0), v(1, 0), z, z, Classification::Neutral), Classification::Separation);
    assert_eq!(classify_forces(z, v(2, 0), v(1, 0), z, Classification::Neutral), Classification::Alignment);
    assert_eq!(classify_forces(z, z, v(2, 0), z, Classification::Neutral), Classification::Cohesion);
    assert_eq!(classify_forces(z, z, z, v(2, 0), Classification::Neutral), Classification::Avoidance);
}

// Shrinking removes from the tail, and resizing is idempotent.
#[test]
fn resize_removes_from_tail() {
    let mut f = default_flock();
    for i in 0..4 {
        f.boids.push(Boid::new(v(i * 1_000, 0), v(0, 0)));
    }
    f.resize_to(2, 5_000);
    assert_eq!(f.boids.len(), 2);
    assert_eq!(f.boids[0].position, v(0, 0));
    assert_eq!(f.boids[1].position, v(1_000, 0));
}

#[test]
fn resize_twice_is_idempotent() {
    let mut f = default_flock();
    for i in 0..5 {
        f.boids.push(Boid::new(v(i * 1_000, 100), v(1, 2)));
    }
    f.resize_to(3, 5_000);
    let snapshot: Vec<(Vec2, Vec2)> = f.boids.iter().map(|b| (b.position, b.velocity)).collect();
    f.resize_to(3, 5_000);
    assert_eq!(f.boids.len(), 3);
    let again: Vec<(Vec2, Vec2)> = f.boids.iter().map(|b| (b.position, b.velocity)).collect();
    assert_eq!(snapshot, again);
}

#[test]
fn resize_growth_samples_inside_domain() {
    let mut f = default_flock();
    f.boids.push(Boid::new(v(0, 0), v(10, 10)));
    f.resize_to(40, 3_000);
    assert_eq!(f.boids.len(), 40);
    // The pre-existing boid survives in place.
    assert_eq!(f.boids[0].position, v(0, 0));
    for b in f.boids.iter().skip(1) {
        assert!(-850_000 <= b.position.x && b.position.x < 850_000);
        assert!(-475_000 <= b.position.y && b.position.y < 475_000);
        assert!(-3_000 <= b.velocity.x && b.velocity.x < 3_000);
        assert!(-3_000 <= b.velocity.y && b.velocity.y < 3_000);
        assert_eq!(b.acceleration, v(0, 0));
        assert_eq!(b.classification, Classification::Neutral);
    }
}

#[test]
fn resize_growth_with_zero_max_speed() {
    let mut f = default_flock();
    f.resize_to(3, 0);
    assert_eq!(f.boids.len(), 3);
    for b in f.boids.iter() {
        assert_eq!(b.velocity, v(0, 0));
    }
}

// Scenario: a single boid with no neighbours and no predator receives no
// force; one update moves it only by its prior velocity, capped.
#[test]
fn single_boid_drifts_unforced() {
    let mut f = default_flock();
    f.boids.push(Boid::new(v(1_000, 2_000), v(3_000, 4_000)));
    let mut p = BoidsSimulationParameters::default();
    p.num_boids = 1;
    f.update_boids(&p, None);
    assert_eq!(f.boids.len(), 1);
    let b = f.boids[0];
    // |(3000, 4000)| = 5000 = max_speed: kept exactly.
    assert_eq!(b.velocity, v(3_000, 4_000));
    assert_eq!(b.position, v(4_000, 6_000));
    assert_eq!(b.acceleration, v(0, 0));
    assert_eq!(b.classification, Classification::Neutral);
}

// Scenario: two boids five pixels apart with only separation enabled push
// directly away from each other along the connecting line.
#[test]
fn two_boids_separate_along_connecting_line() {
    let mut f = default_flock();
    f.boids.push(Boid::new(v(0, 0), v(0, 0)));
    f.boids.push(Boid::new(v(5_000, 0), v(0, 0)));
    let mut p = zero_weight_params();
    p.num_boids = 2;
    p.separation_weight = 1;
    f.update_forces(&p, None);
    // Unit direction away (|1000|), clamped to max_force 500.
    assert_eq!(f.boids[0].acceleration, v(-500, 0));
    assert_eq!(f.boids[1].acceleration, v(500, 0));
    assert_eq!(f.boids[0].classification, Classification::Separation);
    assert_eq!(f.boids[1].classification, Classification::Separation);
}

// Scenario: a predator inside the avoidance radius of one boid and outside
// for another pushes only the near boid.
#[test]
fn predator_repels_only_near_boid() {
    let mut f = default_flock();
    f.boids.push(Boid::new(v(0, 0), v(0, 0)));
    f.boids.push(Boid::new(v(200_000, 0), v(0, 0)));
    let mut p = zero_weight_params();
    p.num_boids = 2;
    p.avoidance_weight = 1;
    f.update_forces(&p, Some(v(10_000, 0)));
    assert_eq!(f.boids[0].acceleration, v(-500, 0));
    assert_eq!(f.boids[1].acceleration, v(0, 0));
}

#[test]
fn no_predator_means_no_avoidance() {
    let mut f = default_flock();
    f.boids.push(Boid::new(v(0, 0), v(0, 0)));
    let mut p = zero_weight_params();
    p.num_boids = 1;
    p.avoidance_weight = 1;
    f.update_forces(&p, None);
    assert_eq!(f.boids[0].acceleration, v(0, 0));
}

// A full update over a larger random flock keeps every invariant the
// contracts promise: population, domain membership and the speed cap.
#[test]
fn update_keeps_population_domain_and_speed_cap() {
    let mut f = default_flock();
    let p = BoidsSimulationParameters::default();
    for _ in 0..5 {
        f.update_boids(&p, Some(v(0, 0)));
        assert_eq!(f.boids.len(), p.num_boids);
        for b in f.boids.iter() {
            assert!(-850_000 <= b.position.x && b.position.x <= 850_000);
            assert!(-475_000 <= b.position.y && b.position.y <= 475_000);
            assert!(
                b.velocity.x * b.velocity.x + b.velocity.y * b.velocity.y
                    <= p.max_speed * p.max_speed
            );
            assert_eq!(b.acceleration, v(0, 0));
        }
    }
}

// Shrinking through a full update still removes from the tail before the
// frame's forces are computed.
#[test]
fn update_shrinks_to_target() {
    let mut f = default_flock();
    for i in 0..6 {
        f.boids.push(Boid::new(v(i * 100_000 - 250_000, 0), v(0, 0)));
    }
    let mut p = zero_weight_params();
    p.num_boids = 2;
    f.update_boids(&p, None);
    assert_eq!(f.boids.len(), 2);
    // No forces were enabled, so the survivors are the first two, unmoved
    // (their velocity was zero).
    assert_eq!(f.boids[0].position, v(-250_000, 0));
    assert_eq!(f.boids[1].position, v(-150_000, 0));
}
