//! A single flocking agent: its state, its four steering-force computations,
//! the fixed-step integrator and the toroidal boundary wrap.

use crate::vec2::accel_bounded;
use crate::vec2::clamp_len;
use crate::vec2::div_comp;
use crate::vec2::div_toward_zero;
use crate::vec2::dist_sq;
use crate::vec2::iabs;
use crate::vec2::len_sq;
use crate::vec2::lemma_div_mag_bound;
use crate::vec2::lemma_sq_nonneg;
use crate::vec2::length_sq;
use crate::vec2::scale_to;
use crate::vec2::scale_weight;
use crate::vec2::spec_clamp_x;
use crate::vec2::spec_clamp_y;
use crate::vec2::spec_scale_x;
use crate::vec2::spec_scale_y;
use crate::vec2::v2;
use crate::vec2::vec_bounded;
use crate::vec2::zero_vec;
use crate::vec2::Vec2;
use crate::vec2::ACCEL_LIMIT;
use crate::vec2::COORD_LIMIT;
use crate::vec2::UNIT_LENGTH;
use crate::vec2::WEIGHT_LIMIT;
use vstd::prelude::*;

verus! {

/// Largest population the engine admits; it keeps every accumulated
/// neighbour sum inside `i64`.
pub const POPULATION_LIMIT: usize = 10_000;

/// Which of the four steering forces dominates a boid this frame, used only
/// for presentation. `Neutral` is the initial tag of a fresh boid.
#[derive(Clone, Copy, PartialEq, Eq, Structural, Debug)]
pub enum Classification {
    Neutral,
    Separation,
    Alignment,
    Cohesion,
    Avoidance,
}

#[derive(Clone, Copy, PartialEq, Eq, Structural, Debug)]
pub struct Boid {
    pub position: Vec2,
    pub velocity: Vec2,
    pub acceleration: Vec2,
    pub classification: Classification,
}

pub open spec fn boid_bounded(b: Boid) -> bool {
    vec_bounded(b.position) && vec_bounded(b.velocity)
}

pub open spec fn boids_bounded(s: Seq<Boid>) -> bool {
    forall|i: int| 0 <= i < s.len() ==> boid_bounded(#[trigger] s[i])
}

/// Another boid influences this one when it sits strictly within the radius
/// and strictly away from it; a non-positive radius matches nobody.
pub open spec fn is_neighbor(me: Vec2, other: Vec2, radius: int) -> bool {
    radius > 0 && 0 < dist_sq(me, other) && dist_sq(me, other) < radius * radius
}

pub open spec fn diff_vec(a: Vec2, b: Vec2) -> Vec2 {
    v2(a.x - b.x, a.y - b.y)
}

/// Sum of `f` over a sequence of boids, folded from the right.
pub open spec fn sum_by(s: Seq<Boid>, f: spec_fn(Boid) -> int) -> int
    decreases s.len(),
{
    if s.len() == 0 {
        0
    } else {
        sum_by(s.drop_last(), f) + f(s.last())
    }
}

pub proof fn lemma_sum_by_take_step(s: Seq<Boid>, f: spec_fn(Boid) -> int, i: int)
    requires
        0 <= i < s.len(),
    ensures
        sum_by(s.take(i + 1), f) == sum_by(s.take(i), f) + f(s[i]),
{
    assert(s.take(i + 1).drop_last() =~= s.take(i));
    assert(s.take(i + 1).last() == s[i]);
}

pub proof fn lemma_sum_by_all_zero(s: Seq<Boid>, f: spec_fn(Boid) -> int)
    requires
        forall|j: int| 0 <= j < s.len() ==> f(#[trigger] s[j]) == 0,
    ensures
        sum_by(s, f) == 0,
    decreases s.len(),
{
    if s.len() > 0 {
        assert(forall|j: int|
            0 <= j < s.drop_last().len() ==> f(#[trigger] s.drop_last()[j]) == 0);
        lemma_sum_by_all_zero(s.drop_last(), f);
    }
}

/// Contribution of one boid to the neighbour count.
pub open spec fn count_term(me: Vec2, radius: int) -> spec_fn(Boid) -> int {
    |b: Boid|
        if is_neighbor(me, b.position, radius) {
            1int
        } else {
            0int
        }
}

/// Contribution of one boid to the summed separation direction.
pub open spec fn sep_term_x(me: Vec2, radius: int) -> spec_fn(Boid) -> int {
    |b: Boid|
        if is_neighbor(me, b.position, radius) {
            spec_scale_x(diff_vec(me, b.position), UNIT_LENGTH as int)
        } else {
            0int
        }
}

pub open spec fn sep_term_y(me: Vec2, radius: int) -> spec_fn(Boid) -> int {
    |b: Boid|
        if is_neighbor(me, b.position, radius) {
            spec_scale_y(diff_vec(me, b.position), UNIT_LENGTH as int)
        } else {
            0int
        }
}

/// Contribution of one boid to the summed neighbour velocity.
pub open spec fn vel_term_x(me: Vec2, radius: int) -> spec_fn(Boid) -> int {
    |b: Boid|
        if is_neighbor(me, b.position, radius) {
            b.velocity.x as int
        } else {
            0int
        }
}

pub open spec fn vel_term_y(me: Vec2, radius: int) -> spec_fn(Boid) -> int {
    |b: Boid|
        if is_neighbor(me, b.position, radius) {
            b.velocity.y as int
        } else {
            0int
        }
}

/// Contribution of one boid to the summed neighbour position.
pub open spec fn pos_term_x(me: Vec2, radius: int) -> spec_fn(Boid) -> int {
    |b: Boid|
        if is_neighbor(me, b.position, radius) {
            b.position.x as int
        } else {
            0int
        }
}

pub open spec fn pos_term_y(me: Vec2, radius: int) -> spec_fn(Boid) -> int {
    |b: Boid|
        if is_neighbor(me, b.position, radius) {
            b.position.y as int
        } else {
            0int
        }
}

pub open spec fn neighbor_count(me: Vec2, s: Seq<Boid>, radius: int) -> int {
    sum_by(s, count_term(me, radius))
}

/// Separation: average of the unit directions away from each neighbour,
/// clamped to `mf`, weighted by `w`.
pub open spec fn spec_separation(me: Boid, s: Seq<Boid>, w: int, mf: int, radius: int) -> (
    int,
    int,
) {
    let cnt = neighbor_count(me.position, s, radius);
    let sx = sum_by(s, sep_term_x(me.position, radius));
    let sy = sum_by(s, sep_term_y(me.position, radius));
    let ax = if cnt > 0 {
        div_toward_zero(sx, cnt)
    } else {
        sx
    };
    let ay = if cnt > 0 {
        div_toward_zero(sy, cnt)
    } else {
        sy
    };
    let avg = v2(ax, ay);
    (spec_clamp_x(avg, mf) * w, spec_clamp_y(avg, mf) * w)
}

/// Seek: steer toward `target` at full speed `ms`, clamped to `mf`.
pub open spec fn spec_seek(me: Boid, target: Vec2, ms: int, mf: int) -> (int, int) {
    let to_target = diff_vec(target, me.position);
    let steer = v2(
        spec_scale_x(to_target, ms) - me.velocity.x,
        spec_scale_y(to_target, ms) - me.velocity.y,
    );
    (spec_clamp_x(steer, mf), spec_clamp_y(steer, mf))
}

/// Cohesion: seek the average neighbour position, weighted by `w`; the zero
/// vector when there is no neighbour.
pub open spec fn spec_cohesion(me: Boid, s: Seq<Boid>, w: int, mf: int, ms: int, radius: int) -> (
    int,
    int,
) {
    let cnt = neighbor_count(me.position, s, radius);
    if cnt > 0 {
        let target = v2(
            div_toward_zero(sum_by(s, pos_term_x(me.position, radius)), cnt),
            div_toward_zero(sum_by(s, pos_term_y(me.position, radius)), cnt),
        );
        let sk = spec_seek(me, target, ms, mf);
        (sk.0 * w, sk.1 * w)
    } else {
        (0, 0)
    }
}

/// Alignment: steer from the current velocity toward the average neighbour
/// velocity rescaled to full speed, clamped to `mf`, weighted by `w`; the
/// zero vector when there is no neighbour.
pub open spec fn spec_alignment(me: Boid, s: Seq<Boid>, w: int, ms: int, mf: int, radius: int) -> (
    int,
    int,
) {
    let cnt = neighbor_count(me.position, s, radius);
    if cnt > 0 {
        let avg = v2(
            div_toward_zero(sum_by(s, vel_term_x(me.position, radius)), cnt),
            div_toward_zero(sum_by(s, vel_term_y(me.position, radius)), cnt),
        );
        let steer = v2(
            spec_scale_x(avg, ms) - me.velocity.x,
            spec_scale_y(avg, ms) - me.velocity.y,
        );
        (spec_clamp_x(steer, mf) * w, spec_clamp_y(steer, mf) * w)
    } else {
        (0, 0)
    }
}

/// Avoidance: the unit direction away from a predator strictly within the
/// radius, clamped to `mf`, weighted by `w` — a plain repulsion, not a seek.
pub open spec fn spec_avoidance(me: Boid, predator: Vec2, w: int, mf: int, radius: int) -> (
    int,
    int,
) {
    if radius > 0 && dist_sq(me.position, predator) < radius * radius {
        let dir = v2(
            spec_scale_x(diff_vec(me.position, predator), UNIT_LENGTH as int),
            spec_scale_y(diff_vec(me.position, predator), UNIT_LENGTH as int),
        );
        (spec_clamp_x(dir, mf) * w, spec_clamp_y(dir, mf) * w)
    } else {
        (0, 0)
    }
}

pub open spec fn pair_len_sq(f: (int, int)) -> int {
    f.0 * f.0 + f.1 * f.1
}

/// The tag of whichever squared magnitude strictly exceeds all three others;
/// on any tie the previous tag is kept.
pub open spec fn dominant_class(s: int, a: int, c: int, v: int, prev: Classification)
    -> Classification {
    if s > a && s > c && s > v {
        Classification::Separation
    } else if a > s && a > c && a > v {
        Classification::Alignment
    } else if c > a && c > s && c > v {
        Classification::Cohesion
    } else if v > a && v > c && v > s {
        Classification::Avoidance
    } else {
        prev
    }
}

/// When the four candidate forces have exactly equal magnitude — all four
/// zero included — no force dominates and the previous tag survives.
pub proof fn lemma_classification_tie(s: int, a: int, c: int, v: int, prev: Classification)
    requires
        s == a,
        a == c,
        c == v,
    ensures
        dominant_class(s, a, c, v, prev) == prev,
{
}

/// Velocity after one integration step: the acceleration is applied, then
/// the result is clamped to `ms`.
pub open spec fn integrated_velocity(b: Boid, ms: int) -> Vec2 {
    let s = v2(b.velocity.x + b.acceleration.x, b.velocity.y + b.acceleration.y);
    v2(spec_clamp_x(s, ms), spec_clamp_y(s, ms))
}

/// One axis of the toroidal boundary: a coordinate beyond either bound snaps
/// to the opposite bound, an instantaneous teleport rather than a modulo.
pub open spec fn spec_wrap(x: int, low: int, high: int) -> int {
    if x > high {
        low
    } else if x < low {
        high
    } else {
        x
    }
}

/// Wrapping never leaves the closed domain, whatever the jump was.
pub proof fn lemma_wrap_in_domain(x: int, low: int, high: int)
    requires
        low <= high,
    ensures
        low <= spec_wrap(x, low, high) <= high,
{
}

/// Wrapping lands strictly below the high bound for every start that is not
/// already pinned to it: a coordinate equal to `high` stays there, and one
/// below `low` snaps exactly to `high`.
pub proof fn lemma_wrap_strict(x: int, low: int, high: int)
    requires
        low < high,
        low <= x < high || x > high,
    ensures
        low <= spec_wrap(x, low, high) < high,
{
}

impl Boid {
    pub fn new(position: Vec2, initial_velocity: Vec2) -> (b: Boid)
        ensures
            b.position == position,
            b.velocity == initial_velocity,
            b.acceleration == zero_vec(),
            b.classification == Classification::Neutral,
    {
        Boid {
            position,
            velocity: initial_velocity,
            acceleration: Vec2 { x: 0, y: 0 },
            classification: Classification::Neutral,
        }
    }

    /// Integration step: apply the acceleration to the velocity, clamp the
    /// speed, zero the acceleration, advance the position by the velocity.
    pub fn apply_forces(&mut self, max_speed: i64)
        requires
            0 <= max_speed <= COORD_LIMIT,
            vec_bounded(old(self).position),
            vec_bounded(old(self).velocity),
            accel_bounded(old(self).acceleration),
        ensures
            final(self).velocity == integrated_velocity(*old(self), max_speed as int),
            final(self).acceleration == zero_vec(),
            final(self).position.x as int == old(self).position.x + final(self).velocity.x,
            final(self).position.y as int == old(self).position.y + final(self).velocity.y,
            final(self).classification == old(self).classification,
            len_sq(final(self).velocity) <= max_speed * max_speed,
            iabs(final(self).velocity.x as int) <= max_speed,
            iabs(final(self).velocity.y as int) <= max_speed,
            iabs(final(self).position.x as int) <= 2 * COORD_LIMIT,
            iabs(final(self).position.y as int) <= 2 * COORD_LIMIT,
    {
        let sum = self.velocity.plus(self.acceleration);
        let clamped = clamp_len(sum, max_speed);
        self.velocity = clamped;
        self.acceleration = Vec2 { x: 0, y: 0 };
        self.position = self.position.plus(self.velocity);
    }

    /// For every other boid strictly within the neighbour radius, accumulate
    /// the unit direction away from it; average over the matches, clamp to
    /// `max_force`, scale by the weight. The boid itself is naturally
    /// excluded: its distance to itself is zero.
    pub fn calculate_separation_force(
        &self,
        boids: &Vec<Boid>,
        separation_weight: i64,
        max_force: i64,
        neighbor_radius: i64,
    ) -> (r: Vec2)
        requires
            boids_bounded(boids@),
            boids@.len() <= POPULATION_LIMIT,
            vec_bounded(self.position),
            0 <= max_force <= COORD_LIMIT,
            iabs(separation_weight as int) <= WEIGHT_LIMIT,
            iabs(neighbor_radius as int) <= COORD_LIMIT,
        ensures
            r.x as int == spec_separation(
                *self,
                boids@,
                separation_weight as int,
                max_force as int,
                neighbor_radius as int,
            ).0,
            r.y as int == spec_separation(
                *self,
                boids@,
                separation_weight as int,
                max_force as int,
                neighbor_radius as int,
            ).1,
            iabs(r.x as int) <= COORD_LIMIT * WEIGHT_LIMIT,
            iabs(r.y as int) <= COORD_LIMIT * WEIGHT_LIMIT,
            (forall|j: int|
                0 <= j < boids@.len() ==> !is_neighbor(
                    self.position,
                    #[trigger] boids@[j].position,
                    neighbor_radius as int,
                )) ==> r == zero_vec(),
    {
        let ghost rad = neighbor_radius as int;
        let ghost me = self.position;
        let mut sum = Vec2 { x: 0, y: 0 };
        let mut count: i64 = 0;
        let mut i: usize = 0;
        while i < boids.len()
            invariant
                0 <= i <= boids@.len(),
                boids@.len() <= POPULATION_LIMIT,
                boids_bounded(boids@),
                vec_bounded(me),
                me == self.position,
                rad == neighbor_radius as int,
                iabs(rad) <= COORD_LIMIT,
                count == neighbor_count(me, boids@.take(i as int), rad),
                sum.x as int == sum_by(boids@.take(i as int), sep_term_x(me, rad)),
                sum.y as int == sum_by(boids@.take(i as int), sep_term_y(me, rad)),
                0 <= count <= i,
                iabs(sum.x as int) <= count * (UNIT_LENGTH as int),
                iabs(sum.y as int) <= count * (UNIT_LENGTH as int),
            decreases boids@.len() - i,
        {
            let other = boids[i];
            let diff = self.position.minus(other.position);
            let dsq = length_sq(diff);
            let hit: bool = if neighbor_radius > 0 {
                proof {
                    assert((neighbor_radius as int) * (neighbor_radius as int)
                        <= 1_000_000_000_000) by (nonlinear_arith)
                        requires
                            0 < neighbor_radius as int <= 1_000_000,
                    ;
                }
                let rr = (neighbor_radius as u128) * (neighbor_radius as u128);
                dsq > 0 && dsq < rr
            } else {
                false
            };
            proof {
                assert(hit == is_neighbor(me, boids@[i as int].position, rad));
            }
            if hit {
                let dir = scale_to(diff, UNIT_LENGTH);
                sum = sum.plus(dir);
                count = count + 1;
            }
            proof {
                lemma_sum_by_take_step(boids@, count_term(me, rad), i as int);
                lemma_sum_by_take_step(boids@, sep_term_x(me, rad), i as int);
                lemma_sum_by_take_step(boids@, sep_term_y(me, rad), i as int);
            }
            i = i + 1;
        }
        proof {
            assert(boids@.take(boids@.len() as int) =~= boids@);
        }
        let avg = if count > 0 {
            Vec2 { x: div_comp(sum.x, count), y: div_comp(sum.y, count) }
        } else {
            sum
        };
        let clamped = clamp_len(avg, max_force);
        let result = scale_weight(clamped, separation_weight);
        proof {
            if forall|j: int|
                0 <= j < boids@.len() ==> !is_neighbor(me, #[trigger] boids@[j].position, rad) {
                assert forall|j: int|
                    0 <= j < boids@.len() implies count_term(me, rad)(#[trigger] boids@[j]) == 0
                    && sep_term_x(me, rad)(boids@[j]) == 0 && sep_term_y(me, rad)(boids@[j])
                    == 0 by {
                    assert(!is_neighbor(me, boids@[j].position, rad));
                }
                lemma_sum_by_all_zero(boids@, count_term(me, rad));
                lemma_sum_by_all_zero(boids@, sep_term_x(me, rad));
                lemma_sum_by_all_zero(boids@, sep_term_y(me, rad));
                lemma_sq_nonneg(max_force as int);
                assert(count == 0);
                assert(sum.x == 0 && sum.y == 0);
                assert(avg == Vec2 { x: 0i64, y: 0i64 });
                assert(len_sq(avg) == 0);
                assert(clamped.x == 0 && clamped.y == 0);
                assert((clamped.x as int) * (separation_weight as int) == 0 && (clamped.y as int)
                    * (separation_weight as int) == 0) by (nonlinear_arith)
                    requires
                        clamped.x as int == 0,
                        clamped.y as int == 0,
                ;
                assert(result == zero_vec());
            }
        }
        result
    }

    /// Average the velocities of the boids strictly within the neighbour
    /// radius; if any matched, steer from the current velocity toward that
    /// average rescaled to full speed, clamp to `max_force`, scale by the
    /// weight; otherwise the zero vector.
    pub fn calculate_alignment_force(
        &self,
        boids: &Vec<Boid>,
        alignment_weight: i64,
        max_speed: i64,
        max_force: i64,
        neighbor_radius: i64,
    ) -> (r: Vec2)
        requires
            boids_bounded(boids@),
            boids@.len() <= POPULATION_LIMIT,
            vec_bounded(self.position),
            vec_bounded(self.velocity),
            0 <= max_speed <= COORD_LIMIT,
            0 <= max_force <= COORD_LIMIT,
            iabs(alignment_weight as int) <= WEIGHT_LIMIT,
            iabs(neighbor_radius as int) <= COORD_LIMIT,
        ensures
            r.x as int == spec_alignment(
                *self,
                boids@,
                alignment_weight as int,
                max_speed as int,
                max_force as int,
                neighbor_radius as int,
            ).0,
            r.y as int == spec_alignment(
                *self,
                boids@,
                alignment_weight as int,
                max_speed as int,
                max_force as int,
                neighbor_radius as int,
            ).1,
            iabs(r.x as int) <= COORD_LIMIT * WEIGHT_LIMIT,
            iabs(r.y as int) <= COORD_LIMIT * WEIGHT_LIMIT,
            (forall|j: int|
                0 <= j < boids@.len() ==> !is_neighbor(
                    self.position,
                    #[trigger] boids@[j].position,
                    neighbor_radius as int,
                )) ==> r == zero_vec(),
    {
        let ghost rad = neighbor_radius as int;
        let ghost me = self.position;
        let mut sum = Vec2 { x: 0, y: 0 };
        let mut count: i64 = 0;
        let mut i: usize = 0;
        while i < boids.len()
            invariant
                0 <= i <= boids@.len(),
                boids@.len() <= POPULATION_LIMIT,
                boids_bounded(boids@),
                vec_bounded(me),
                me == self.position,
                rad == neighbor_radius as int,
                iabs(rad) <= COORD_LIMIT,
                count == neighbor_count(me, boids@.take(i as int), rad),
                sum.x as int == sum_by(boids@.take(i as int), vel_term_x(me, rad)),
                sum.y as int == sum_by(boids@.take(i as int), vel_term_y(me, rad)),
                0 <= count <= i,
                iabs(sum.x as int) <= count * (COORD_LIMIT as int),
                iabs(sum.y as int) <= count * (COORD_LIMIT as int),
            decreases boids@.len() - i,
        {
            let other = boids[i];
            let diff = self.position.minus(other.position);
            let dsq = length_sq(diff);
            let hit: bool = if neighbor_radius > 0 {
                proof {
                    assert((neighbor_radius as int) * (neighbor_radius as int)
                        <= 1_000_000_000_000) by (nonlinear_arith)
                        requires
                            0 < neighbor_radius as int <= 1_000_000,
                    ;
                }
                let rr = (neighbor_radius as u128) * (neighbor_radius as u128);
                dsq > 0 && dsq < rr
            } else {
                false
            };
            proof {
                assert(hit == is_neighbor(me, boids@[i as int].position, rad));
            }
            if hit {
                sum = sum.plus(other.velocity);
                count = count + 1;
            }
            proof {
                lemma_sum_by_take_step(boids@, count_term(me, rad), i as int);
                lemma_sum_by_take_step(boids@, vel_term_x(me, rad), i as int);
                lemma_sum_by_take_step(boids@, vel_term_y(me, rad), i as int);
            }
            i = i + 1;
        }
        proof {
            assert(boids@.take(boids@.len() as int) =~= boids@);
            if forall|j: int|
                0 <= j < boids@.len() ==> !is_neighbor(me, #[trigger] boids@[j].position, rad) {
                assert forall|j: int|
                    0 <= j < boids@.len() implies count_term(me, rad)(#[trigger] boids@[j])
                    == 0 by {
                    assert(!is_neighbor(me, boids@[j].position, rad));
                }
                lemma_sum_by_all_zero(boids@, count_term(me, rad));
            }
        }
        if count > 0 {
            let avg = Vec2 { x: div_comp(sum.x, count), y: div_comp(sum.y, count) };
            proof {
                lemma_div_mag_bound(
                    iabs(avg.x as int),
                    iabs(sum.x as int),
                    count as int,
                    COORD_LIMIT as int,
                );
                lemma_div_mag_bound(
                    iabs(avg.y as int),
                    iabs(sum.y as int),
                    count as int,
                    COORD_LIMIT as int,
                );
            }
            let desired = scale_to(avg, max_speed);
            let steer = desired.minus(self.velocity);
            let clamped = clamp_len(steer, max_force);
            scale_weight(clamped, alignment_weight)
        } else {
            Vec2 { x: 0, y: 0 }
        }
    }

    /// Average the positions of the boids strictly within the neighbour
    /// radius; if any matched, seek that average position and scale by the
    /// weight; otherwise the zero vector.
    pub fn calculate_cohesion_force(
        &self,
        boids: &Vec<Boid>,
        cohesion_weight: i64,
        max_force: i64,
        max_speed: i64,
        neighbor_radius: i64,
    ) -> (r: Vec2)
        requires
            boids_bounded(boids@),
            boids@.len() <= POPULATION_LIMIT,
            vec_bounded(self.position),
            vec_bounded(self.velocity),
            0 <= max_speed <= COORD_LIMIT,
            0 <= max_force <= COORD_LIMIT,
            iabs(cohesion_weight as int) <= WEIGHT_LIMIT,
            iabs(neighbor_radius as int) <= COORD_LIMIT,
        ensures
            r.x as int == spec_cohesion(
                *self,
                boids@,
                cohesion_weight as int,
                max_force as int,
                max_speed as int,
                neighbor_radius as int,
            ).0,
            r.y as int == spec_cohesion(
                *self,
                boids@,
                cohesion_weight as int,
                max_force as int,
                max_speed as int,
                neighbor_radius as int,
            ).1,
            iabs(r.x as int) <= COORD_LIMIT * WEIGHT_LIMIT,
            iabs(r.y as int) <= COORD_LIMIT * WEIGHT_LIMIT,
            (forall|j: int|
                0 <= j < boids@.len() ==> !is_neighbor(
                    self.position,
                    #[trigger] boids@[j].position,
                    neighbor_radius as int,
                )) ==> r == zero_vec(),
    {
        let ghost rad = neighbor_radius as int;
        let ghost me = self.position;
        let mut sum = Vec2 { x: 0, y: 0 };
        let mut count: i64 = 0;
        let mut i: usize = 0;
        while i < boids.len()
            invariant
                0 <= i <= boids@.len(),
                boids@.len() <= POPULATION_LIMIT,
                boids_bounded(boids@),
                vec_bounded(me),
                me == self.position,
                rad == neighbor_radius as int,
                iabs(rad) <= COORD_LIMIT,
                count == neighbor_count(me, boids@.take(i as int), rad),
                sum.x as int == sum_by(boids@.take(i as int), pos_term_x(me, rad)),
                sum.y as int == sum_by(boids@.take(i as int), pos_term_y(me, rad)),
                0 <= count <= i,
                iabs(sum.x as int) <= count * (COORD_LIMIT as int),
                iabs(sum.y as int) <= count * (COORD_LIMIT as int),
            decreases boids@.len() - i,
        {
            let other = boids[i];
            let diff = self.position.minus(other.position);
            let dsq = length_sq(diff);
            let hit: bool = if neighbor_radius > 0 {
                proof {
                    assert((neighbor_radius as int) * (neighbor_radius as int)
                        <= 1_000_000_000_000) by (nonlinear_arith)
                        requires
                            0 < neighbor_radius as int <= 1_000_000,
                    ;
                }
                let rr = (neighbor_radius as u128) * (neighbor_radius as u128);
                dsq > 0 && dsq < rr
            } else {
                false
            };
            proof {
                assert(hit == is_neighbor(me, boids@[i as int].position, rad));
            }
            if hit {
                sum = sum.plus(other.position);
                count = count + 1;
            }
            proof {
                lemma_sum_by_take_step(boids@, count_term(me, rad), i as int);
                lemma_sum_by_take_step(boids@, pos_term_x(me, rad), i as int);
                lemma_sum_by_take_step(boids@, pos_term_y(me, rad), i as int);
            }
            i = i + 1;
        }
        proof {
            assert(boids@.take(boids@.len() as int) =~= boids@);
            if forall|j: int|
                0 <= j < boids@.len() ==> !is_neighbor(me, #[trigger] boids@[j].position, rad) {
                assert forall|j: int|
                    0 <= j < boids@.len() implies count_term(me, rad)(#[trigger] boids@[j])
                    == 0 by {
                    assert(!is_neighbor(me, boids@[j].position, rad));
                }
                lemma_sum_by_all_zero(boids@, count_term(me, rad));
            }
        }
        if count > 0 {
            let target = Vec2 { x: div_comp(sum.x, count), y: div_comp(sum.y, count) };
            proof {
                lemma_div_mag_bound(
                    iabs(target.x as int),
                    iabs(sum.x as int),
                    count as int,
                    COORD_LIMIT as int,
                );
                lemma_div_mag_bound(
                    iabs(target.y as int),
                    iabs(sum.y as int),
                    count as int,
                    COORD_LIMIT as int,
                );
            }
            let steer = self.seek(target, max_speed, max_force);
            scale_weight(steer, cohesion_weight)
        } else {
            Vec2 { x: 0, y: 0 }
        }
    }

    /// Seek: desired velocity is the direction to the target at full speed;
    /// the steering force is desired minus current, clamped to `max_force`.
    /// A target that coincides with the position yields the zero desired
    /// velocity rather than an undefined direction.
    fn seek(&self, target_pos: Vec2, max_speed: i64, max_force: i64) -> (r: Vec2)
        requires
            vec_bounded(self.position),
            vec_bounded(self.velocity),
            vec_bounded(target_pos),
            0 <= max_speed <= COORD_LIMIT,
            0 <= max_force <= COORD_LIMIT,
        ensures
            r.x as int == spec_seek(*self, target_pos, max_speed as int, max_force as int).0,
            r.y as int == spec_seek(*self, target_pos, max_speed as int, max_force as int).1,
            iabs(r.x as int) <= max_force,
            iabs(r.y as int) <= max_force,
    {
        let to_target = target_pos.minus(self.position);
        let desired = scale_to(to_target, max_speed);
        let steer = desired.minus(self.velocity);
        clamp_len(steer, max_force)
    }

    /// If the predator is strictly within the avoidance radius, steer away
    /// from it: the unit direction away, clamped to `max_force`, scaled by
    /// the weight — a plain repulsion, not rescaled to full speed. Otherwise
    /// the zero vector.
    pub fn calculate_avoidance_force(
        &self,
        predator_position: Vec2,
        avoidance_weight: i64,
        max_force: i64,
        avoidance_radius: i64,
    ) -> (r: Vec2)
        requires
            vec_bounded(self.position),
            vec_bounded(predator_position),
            0 <= max_force <= COORD_LIMIT,
            iabs(avoidance_weight as int) <= WEIGHT_LIMIT,
            iabs(avoidance_radius as int) <= COORD_LIMIT,
        ensures
            r.x as int == spec_avoidance(
                *self,
                predator_position,
                avoidance_weight as int,
                max_force as int,
                avoidance_radius as int,
            ).0,
            r.y as int == spec_avoidance(
                *self,
                predator_position,
                avoidance_weight as int,
                max_force as int,
                avoidance_radius as int,
            ).1,
            iabs(r.x as int) <= COORD_LIMIT * WEIGHT_LIMIT,
            iabs(r.y as int) <= COORD_LIMIT * WEIGHT_LIMIT,
            (avoidance_radius <= 0 || dist_sq(self.position, predator_position)
                >= (avoidance_radius as int) * (avoidance_radius as int)) ==> r == zero_vec(),
    {
        let diff = self.position.minus(predator_position);
        let dsq = length_sq(diff);
        let hit: bool = if avoidance_radius > 0 {
            proof {
                assert((avoidance_radius as int) * (avoidance_radius as int)
                    <= 1_000_000_000_000) by (nonlinear_arith)
                    requires
                        0 < avoidance_radius as int <= 1_000_000,
                ;
            }
            let rr = (avoidance_radius as u128) * (avoidance_radius as u128);
            dsq < rr
        } else {
            false
        };
        if hit {
            let dir = scale_to(diff, UNIT_LENGTH);
            let clamped = clamp_len(dir, max_force);
            scale_weight(clamped, avoidance_weight)
        } else {
            Vec2 { x: 0, y: 0 }
        }
    }

    /// Toroidal boundary wrap, each axis independently.
    pub fn wrap(&mut self, left: i64, right: i64, top: i64, bottom: i64)
        requires
            left <= right,
            top <= bottom,
        ensures
            final(self).position.x as int == spec_wrap(
                old(self).position.x as int,
                left as int,
                right as int,
            ),
            final(self).position.y as int == spec_wrap(
                old(self).position.y as int,
                top as int,
                bottom as int,
            ),
            left <= final(self).position.x <= right,
            top <= final(self).position.y <= bottom,
            final(self).velocity == old(self).velocity,
            final(self).acceleration == old(self).acceleration,
            final(self).classification == old(self).classification,
    {
        let mut p = self.position;
        if p.x > right {
            p.x = left;
        }
        if p.x < left {
            p.x = right;
        }
        if p.y > bottom {
            p.y = top;
        }
        if p.y < top {
            p.y = bottom;
        }
        self.position = p;
    }
}

/// The dominant-force comparison on four computed force vectors.
pub fn classify_forces(
    separation: Vec2,
    alignment: Vec2,
    cohesion: Vec2,
    avoidance: Vec2,
    prev: Classification,
) -> (r: Classification)
    ensures
        r == dominant_class(
            len_sq(separation),
            len_sq(alignment),
            len_sq(cohesion),
            len_sq(avoidance),
            prev,
        ),
{
    let s = length_sq(separation);
    let a = length_sq(alignment);
    let c = length_sq(cohesion);
    let v = length_sq(avoidance);
    if s > a && s > c && s > v {
        Classification::Separation
    } else if a > s && a > c && a > v {
        Classification::Alignment
    } else if c > a && c > s && c > v {
        Classification::Cohesion
    } else if v > a && v > c && v > s {
        Classification::Avoidance
    } else {
        prev
    }
}

} // verus!
