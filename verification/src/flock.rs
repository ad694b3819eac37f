//! The simulation aggregate: the collection of boids, per-frame population
//! reconciliation, two-phase force aggregation and the frame orchestrator.

use crate::boid::boid_bounded;
use crate::boid::boids_bounded;
use crate::boid::dominant_class;
use crate::boid::integrated_velocity;
use crate::boid::classify_forces;
use crate::boid::pair_len_sq;
use crate::boid::spec_alignment;
use crate::boid::spec_avoidance;
use crate::boid::spec_cohesion;
use crate::boid::spec_separation;
use crate::boid::spec_wrap;
use crate::boid::Boid;
use crate::boid::Classification;
use crate::boid::POPULATION_LIMIT;
use crate::boids_simulation::BoidsSimulationParameters;
use crate::rng::random_range_i64;
use crate::vec2::accel_bounded;
use crate::vec2::iabs;
use crate::vec2::len_sq;
use crate::vec2::spec_clamp_x;
use crate::vec2::spec_clamp_y;
use crate::vec2::v2;
use crate::vec2::vec_bounded;
use crate::vec2::zero_vec;
use crate::vec2::Vec2;
use crate::vec2::COORD_LIMIT;
use vstd::prelude::*;

verus! {

/// The flock owns its boids and is their sole mutator; the domain rectangle
/// is fixed at construction.
pub struct Flock {
    pub boids: Vec<Boid>,
    pub left: i64,
    pub right: i64,
    pub top: i64,
    pub bottom: i64,
}

/// The optional predator position supplied each frame; absence means zero
/// avoidance force for every boid.
pub open spec fn predator_bounded(p: Option<Vec2>) -> bool {
    match p {
        Option::Some(q) => vec_bounded(q),
        Option::None => true,
    }
}

/// The total steering force on boid `i` of the snapshot `s`: the four force
/// vectors, summed componentwise.
pub open spec fn spec_forces_total(
    s: Seq<Boid>,
    i: int,
    params: BoidsSimulationParameters,
    predator: Option<Vec2>,
) -> (int, int) {
    let sep = spec_sep_of(s, i, params);
    let ali = spec_ali_of(s, i, params);
    let coh = spec_coh_of(s, i, params);
    let avo = spec_avo_of(s, i, params, predator);
    (sep.0 + ali.0 + coh.0 + avo.0, sep.1 + ali.1 + coh.1 + avo.1)
}

pub open spec fn spec_sep_of(s: Seq<Boid>, i: int, params: BoidsSimulationParameters) -> (
    int,
    int,
) {
    spec_separation(
        s[i],
        s,
        params.separation_weight as int,
        params.max_force as int,
        params.neighbor_radius as int,
    )
}

pub open spec fn spec_ali_of(s: Seq<Boid>, i: int, params: BoidsSimulationParameters) -> (
    int,
    int,
) {
    spec_alignment(
        s[i],
        s,
        params.alignment_weight as int,
        params.max_speed as int,
        params.max_force as int,
        params.neighbor_radius as int,
    )
}

pub open spec fn spec_coh_of(s: Seq<Boid>, i: int, params: BoidsSimulationParameters) -> (
    int,
    int,
) {
    spec_cohesion(
        s[i],
        s,
        params.cohesion_weight as int,
        params.max_force as int,
        params.max_speed as int,
        params.neighbor_radius as int,
    )
}

pub open spec fn spec_avo_of(
    s: Seq<Boid>,
    i: int,
    params: BoidsSimulationParameters,
    predator: Option<Vec2>,
) -> (int, int) {
    match predator {
        Option::Some(p) => spec_avoidance(
            s[i],
            p,
            params.avoidance_weight as int,
            params.max_force as int,
            params.avoidance_radius as int,
        ),
        Option::None => (0, 0),
    }
}

/// The tag boid `i` carries after force aggregation: the strictly dominant
/// force's tag, or its previous tag when no force strictly dominates.
pub open spec fn spec_classify(
    s: Seq<Boid>,
    i: int,
    params: BoidsSimulationParameters,
    predator: Option<Vec2>,
) -> Classification {
    dominant_class(
        pair_len_sq(spec_sep_of(s, i, params)),
        pair_len_sq(spec_ali_of(s, i, params)),
        pair_len_sq(spec_coh_of(s, i, params)),
        pair_len_sq(spec_avo_of(s, i, params, predator)),
        s[i].classification,
    )
}

/// The velocity of boid `i` after one frame: forces applied, speed clamped.
pub open spec fn spec_frame_vel(
    s: Seq<Boid>,
    i: int,
    params: BoidsSimulationParameters,
    predator: Option<Vec2>,
) -> Vec2 {
    let f = spec_forces_total(s, i, params, predator);
    let sum = v2(s[i].velocity.x + f.0, s[i].velocity.y + f.1);
    v2(spec_clamp_x(sum, params.max_speed as int), spec_clamp_y(sum, params.max_speed as int))
}

/// One boid integrated and wrapped in isolation: acceleration applied and
/// reset, speed clamped, position advanced and wrapped into the domain.
pub open spec fn spec_integrate_wrap(
    b: Boid,
    ms: int,
    left: int,
    right: int,
    top: int,
    bottom: int,
) -> Boid {
    let v = integrated_velocity(b, ms);
    Boid {
        position: v2(
            spec_wrap(b.position.x + v.x, left, right),
            spec_wrap(b.position.y + v.y, top, bottom),
        ),
        velocity: v,
        acceleration: zero_vec(),
        classification: b.classification,
    }
}

/// The complete state of boid `i` after one frame over the snapshot `s`:
/// forces summed and classified, velocity integrated and clamped, position
/// advanced and wrapped, acceleration reset.
pub open spec fn spec_frame_boid(
    s: Seq<Boid>,
    i: int,
    params: BoidsSimulationParameters,
    predator: Option<Vec2>,
    left: int,
    right: int,
    top: int,
    bottom: int,
) -> Boid {
    let v = spec_frame_vel(s, i, params, predator);
    Boid {
        position: v2(
            spec_wrap(s[i].position.x + v.x, left, right),
            spec_wrap(s[i].position.y + v.y, top, bottom),
        ),
        velocity: v,
        acceleration: zero_vec(),
        classification: spec_classify(s, i, params, predator),
    }
}

impl Flock {
    /// A domain rectangle wholly inside the coordinate bound, with positive
    /// extent on both axes.
    pub open spec fn domain_ok(self) -> bool {
        &&& -COORD_LIMIT <= self.left
        &&& self.left < self.right
        &&& self.right <= COORD_LIMIT
        &&& -COORD_LIMIT <= self.top
        &&& self.top < self.bottom
        &&& self.bottom <= COORD_LIMIT
    }

    /// A boid at rest inside this flock between frames: position inside the
    /// closed domain, velocity bounded.
    pub open spec fn boid_ok(self, b: Boid) -> bool {
        &&& self.left <= b.position.x <= self.right
        &&& self.top <= b.position.y <= self.bottom
        &&& vec_bounded(b.velocity)
    }

    pub open spec fn wf(self) -> bool {
        &&& self.domain_ok()
        &&& self.boids@.len() <= POPULATION_LIMIT
        &&& forall|i: int|
            0 <= i < self.boids@.len() ==> self.boid_ok(#[trigger] self.boids@[i])
    }

    /// Between frames every acceleration is zero: it is a per-frame
    /// accumulator, reset by the integration step.
    pub open spec fn at_rest(self) -> bool {
        forall|i: int|
            0 <= i < self.boids@.len() ==> (#[trigger] self.boids@[i]).acceleration == zero_vec()
    }

    pub proof fn lemma_wf_bounded(self)
        requires
            self.wf(),
        ensures
            boids_bounded(self.boids@),
    {
        assert forall|i: int|
            0 <= i < self.boids@.len() implies boid_bounded(#[trigger] self.boids@[i]) by {
            assert(self.boid_ok(self.boids@[i]));
        }
    }

    /// An empty flock over the given domain rectangle.
    pub fn new(left: i64, right: i64, top: i64, bottom: i64) -> (f: Flock)
        requires
            -COORD_LIMIT <= left < right <= COORD_LIMIT,
            -COORD_LIMIT <= top < bottom <= COORD_LIMIT,
        ensures
            f.wf(),
            f.at_rest(),
            f.boids@.len() == 0,
            f.left == left,
            f.right == right,
            f.top == top,
            f.bottom == bottom,
    {
        Flock { boids: Vec::new(), left, right, top, bottom }
    }

    /// Reconcile the population with the target in one step: excess boids
    /// leave from the tail; missing boids are appended at a uniformly random
    /// position in the domain with a uniformly random velocity per axis in
    /// `[-max_speed, max_speed)`. Equal counts are a no-op, so the
    /// reconciliation is idempotent.
    pub fn resize_to(&mut self, target_population: usize, max_speed: i64)
        requires
            old(self).wf(),
            target_population <= POPULATION_LIMIT,
            0 <= max_speed <= COORD_LIMIT,
        ensures
            final(self).wf(),
            final(self).left == old(self).left,
            final(self).right == old(self).right,
            final(self).top == old(self).top,
            final(self).bottom == old(self).bottom,
            final(self).boids@.len() == target_population,
            old(self).boids@.len() >= target_population ==> final(self).boids@ == old(
                self,
            ).boids@.take(target_population as int),
            old(self).boids@.len() == target_population ==> final(self).boids@ == old(
                self,
            ).boids@,
            old(self).boids@.len() < target_population ==> final(self).boids@.take(
                old(self).boids@.len() as int,
            ) == old(self).boids@,
            forall|i: int|
                old(self).boids@.len() <= i < target_population ==> {
                    let b = #[trigger] final(self).boids@[i];
                    b.acceleration == zero_vec() && b.classification == Classification::Neutral
                        && old(self).left <= b.position.x < old(self).right && old(self).top
                        <= b.position.y < old(self).bottom && iabs(b.velocity.x as int)
                        <= max_speed && iabs(b.velocity.y as int) <= max_speed
                },
            old(self).at_rest() ==> final(self).at_rest(),
    {
        if self.boids.len() > target_population {
            while self.boids.len() > target_population
                invariant
                    target_population <= self.boids@.len(),
                    self.boids@.len() <= old(self).boids@.len(),
                    self.boids@ == old(self).boids@.take(self.boids@.len() as int),
                    self.left == old(self).left,
                    self.right == old(self).right,
                    self.top == old(self).top,
                    self.bottom == old(self).bottom,
                decreases self.boids@.len(),
            {
                let ghost k = self.boids@.len() as int;
                self.boids.pop();
                proof {
                    assert(old(self).boids@.take(k).drop_last() =~= old(self).boids@.take(k - 1));
                }
            }
            proof {
                assert(old(self).boids@.take(old(self).boids@.len() as int) =~= old(self).boids@);
            }
        } else {
            proof {
                assert(old(self).boids@.take(old(self).boids@.len() as int) =~= old(self).boids@);
            }
            while self.boids.len() < target_population
                invariant
                    old(self).boids@.len() <= self.boids@.len() <= target_population,
                    target_population <= POPULATION_LIMIT,
                    0 <= max_speed <= COORD_LIMIT,
                    old(self).wf(),
                    self.boids@.take(old(self).boids@.len() as int) == old(self).boids@,
                    self.left == old(self).left,
                    self.right == old(self).right,
                    self.top == old(self).top,
                    self.bottom == old(self).bottom,
                    forall|i: int|
                        old(self).boids@.len() <= i < self.boids@.len() ==> {
                            let b = #[trigger] self.boids@[i];
                            b.acceleration == zero_vec() && b.classification
                                == Classification::Neutral && self.left <= b.position.x
                                < self.right && self.top <= b.position.y < self.bottom && iabs(
                                b.velocity.x as int,
                            ) <= max_speed && iabs(b.velocity.y as int) <= max_speed
                        },
                decreases target_population - self.boids@.len(),
            {
                let ghost prefix = self.boids@;
                let px = random_range_i64(self.left, self.right);
                let py = random_range_i64(self.top, self.bottom);
                let vx = if max_speed > 0 {
                    random_range_i64(-max_speed, max_speed)
                } else {
                    0
                };
                let vy = if max_speed > 0 {
                    random_range_i64(-max_speed, max_speed)
                } else {
                    0
                };
                let b = Boid::new(Vec2 { x: px, y: py }, Vec2 { x: vx, y: vy });
                self.boids.push(b);
                proof {
                    assert(self.boids@.take(old(self).boids@.len() as int) =~= prefix.take(
                        old(self).boids@.len() as int,
                    ));
                }
            }
        }
        proof {
            let n0 = old(self).boids@.len() as int;
            assert forall|j: int|
                0 <= j < self.boids@.len() && j < n0 implies self.boids@[j] == old(
                self,
            ).boids@[j] by {
                if n0 >= target_population {
                    assert(old(self).boids@.take(target_population as int)[j] == old(
                        self,
                    ).boids@[j]);
                } else {
                    assert(self.boids@.take(n0)[j] == self.boids@[j]);
                }
            }
            assert forall|j: int|
                0 <= j < self.boids@.len() implies self.boid_ok(#[trigger] self.boids@[j]) by {
                if j < n0 {
                    assert(old(self).boid_ok(old(self).boids@[j]));
                }
            }
            if old(self).at_rest() {
                assert forall|j: int|
                    0 <= j < self.boids@.len() implies (#[trigger] self.boids@[j]).acceleration
                    == zero_vec() by {
                    if j < n0 {
                        assert(old(self).boids@[j].acceleration == zero_vec());
                    }
                }
            }
        }
    }

    /// Two-phase force aggregation: first compute, for every boid, all four
    /// forces against the current, unmutated snapshot; then sum the four
    /// into each boid's acceleration and retag it by the strictly dominant
    /// force. A tie leaves the previous tag in place.
    #[verifier::rlimit(100)]
    pub fn update_forces(&mut self, params: &BoidsSimulationParameters, predator: Option<Vec2>)
        requires
            old(self).wf(),
            old(self).at_rest(),
            params.wf(),
            predator_bounded(predator),
        ensures
            final(self).wf(),
            final(self).left == old(self).left,
            final(self).right == old(self).right,
            final(self).top == old(self).top,
            final(self).bottom == old(self).bottom,
            final(self).boids@.len() == old(self).boids@.len(),
            forall|i: int|
                0 <= i < final(self).boids@.len() ==> (#[trigger] final(self).boids@[i]).position
                    == old(self).boids@[i].position,
            forall|i: int|
                0 <= i < final(self).boids@.len() ==> (#[trigger] final(self).boids@[i]).velocity
                    == old(self).boids@[i].velocity,
            forall|i: int|
                0 <= i < final(self).boids@.len() ==> accel_bounded(
                    (#[trigger] final(self).boids@[i]).acceleration,
                ),
            forall|i: int|
                0 <= i < final(self).boids@.len() ==> (#[trigger] final(self).boids@[i]).acceleration.x as int == spec_forces_total(
                    old(self).boids@,
                    i,
                    *params,
                    predator,
                ).0,
            forall|i: int|
                0 <= i < final(self).boids@.len() ==> (#[trigger] final(self).boids@[i]).acceleration.y as int == spec_forces_total(
                    old(self).boids@,
                    i,
                    *params,
                    predator,
                ).1,
            forall|i: int|
                0 <= i < final(self).boids@.len() ==> (#[trigger] final(self).boids@[i]).classification == spec_classify(
                    old(self).boids@,
                    i,
                    *params,
                    predator,
                ),
    {
        let ghost s0 = old(self).boids@;
        proof {
            (*old(self)).lemma_wf_bounded();
        }
        let n = self.boids.len();
        let mut accels: Vec<Vec2> = Vec::new();
        let mut classes: Vec<Classification> = Vec::new();
        let mut i: usize = 0;
        while i < n
            invariant
                *self == *old(self),
                s0 == self.boids@,
                n == s0.len(),
                self.wf(),
                params.wf(),
                predator_bounded(predator),
                boids_bounded(s0),
                i <= n,
                accels@.len() == i,
                classes@.len() == i,
                forall|j: int|
                    0 <= j < i ==> (#[trigger] accels@[j]).x as int == spec_forces_total(
                        s0,
                        j,
                        *params,
                        predator,
                    ).0,
                forall|j: int|
                    0 <= j < i ==> (#[trigger] accels@[j]).y as int == spec_forces_total(
                        s0,
                        j,
                        *params,
                        predator,
                    ).1,
                forall|j: int| 0 <= j < i ==> accel_bounded(#[trigger] accels@[j]),
                forall|j: int|
                    0 <= j < i ==> #[trigger] classes@[j] == spec_classify(
                        s0,
                        j,
                        *params,
                        predator,
                    ),
            decreases n - i,
        {
            let b = self.boids[i];
            let sep = b.calculate_separation_force(
                &self.boids,
                params.separation_weight,
                params.max_force,
                params.neighbor_radius,
            );
            let ali = b.calculate_alignment_force(
                &self.boids,
                params.alignment_weight,
                params.max_speed,
                params.max_force,
                params.neighbor_radius,
            );
            let coh = b.calculate_cohesion_force(
                &self.boids,
                params.cohesion_weight,
                params.max_force,
                params.max_speed,
                params.neighbor_radius,
            );
            let avo = match predator {
                Option::Some(p) => b.calculate_avoidance_force(
                    p,
                    params.avoidance_weight,
                    params.max_force,
                    params.avoidance_radius,
                ),
                Option::None => Vec2 { x: 0, y: 0 },
            };
            let total = sep.plus(ali).plus(coh).plus(avo);
            let cls = classify_forces(sep, ali, coh, avo, b.classification);
            proof {
                assert(b == s0[i as int]);
                assert(len_sq(sep) == pair_len_sq(spec_sep_of(s0, i as int, *params)));
                assert(len_sq(ali) == pair_len_sq(spec_ali_of(s0, i as int, *params)));
                assert(len_sq(coh) == pair_len_sq(spec_coh_of(s0, i as int, *params)));
                assert(len_sq(avo) == pair_len_sq(spec_avo_of(s0, i as int, *params, predator)));
            }
            accels.push(total);
            classes.push(cls);
            i = i + 1;
        }
        let mut k: usize = 0;
        while k < n
            invariant
                s0 == old(self).boids@,
                n == s0.len(),
                self.boids@.len() == n,
                self.left == old(self).left,
                self.right == old(self).right,
                self.top == old(self).top,
                self.bottom == old(self).bottom,
                old(self).wf(),
                old(self).at_rest(),
                accels@.len() == n,
                classes@.len() == n,
                k <= n,
                forall|j: int|
                    0 <= j < n ==> (#[trigger] accels@[j]).x as int == spec_forces_total(
                        s0,
                        j,
                        *params,
                        predator,
                    ).0,
                forall|j: int|
                    0 <= j < n ==> (#[trigger] accels@[j]).y as int == spec_forces_total(
                        s0,
                        j,
                        *params,
                        predator,
                    ).1,
                forall|j: int| 0 <= j < n ==> accel_bounded(#[trigger] accels@[j]),
                forall|j: int|
                    0 <= j < n ==> #[trigger] classes@[j] == spec_classify(
                        s0,
                        j,
                        *params,
                        predator,
                    ),
                forall|j: int| k <= j < n ==> #[trigger] self.boids@[j] == s0[j],
                forall|j: int|
                    0 <= j < k ==> (#[trigger] self.boids@[j]).position == s0[j].position,
                forall|j: int|
                    0 <= j < k ==> (#[trigger] self.boids@[j]).velocity == s0[j].velocity,
                forall|j: int|
                    0 <= j < k ==> (#[trigger] self.boids@[j]).acceleration == accels@[j],
                forall|j: int|
                    0 <= j < k ==> (#[trigger] self.boids@[j]).classification == classes@[j],
            decreases n - k,
        {
            let b = self.boids[k];
            let add = accels[k];
            proof {
                assert(b == s0[k as int]);
                assert(b.acceleration == zero_vec());
            }
            let acc = b.acceleration.plus(add);
            proof {
                assert(acc == add);
            }
            let cls = classes[k];
            let updated = Boid {
                position: b.position,
                velocity: b.velocity,
                acceleration: acc,
                classification: cls,
            };
            self.boids[k] = updated;
            k = k + 1;
        }
        proof {
            assert forall|j: int|
                0 <= j < self.boids@.len() implies self.boid_ok(#[trigger] self.boids@[j]) by {
                assert(old(self).boid_ok(s0[j]));
            }
        }
    }

    /// One simulation frame: reconcile the population toward the target,
    /// aggregate forces two-phase over the resized snapshot, then integrate
    /// and wrap every boid. When the frame only shrinks or keeps the
    /// population, the resulting state is pinned exactly; when it grows, the
    /// inserted boids are random and only the invariants are promised.
    #[verifier::rlimit(100)]
    pub fn update_boids(&mut self, params: &BoidsSimulationParameters, predator: Option<Vec2>)
        requires
            old(self).wf(),
            old(self).at_rest(),
            params.wf(),
            predator_bounded(predator),
        ensures
            final(self).wf(),
            final(self).at_rest(),
            final(self).left == old(self).left,
            final(self).right == old(self).right,
            final(self).top == old(self).top,
            final(self).bottom == old(self).bottom,
            final(self).boids@.len() == params.num_boids,
            forall|i: int|
                0 <= i < final(self).boids@.len() ==> len_sq(
                    (#[trigger] final(self).boids@[i]).velocity,
                ) <= params.max_speed * params.max_speed,
            old(self).boids@.len() >= params.num_boids ==> forall|i: int|
                0 <= i < params.num_boids ==> #[trigger] final(self).boids@[i] == spec_frame_boid(
                    old(self).boids@.take(params.num_boids as int),
                    i,
                    *params,
                    predator,
                    old(self).left as int,
                    old(self).right as int,
                    old(self).top as int,
                    old(self).bottom as int,
                ),
    {
        self.resize_to(params.num_boids, params.max_speed);
        let ghost s = self.boids@;
        self.update_forces(params, predator);
        let ghost mid = self.boids@;
        self.update_boids_position(params);
        proof {
            assert forall|i: int|
                0 <= i < self.boids@.len() implies #[trigger] self.boids@[i] == spec_frame_boid(
                s,
                i,
                *params,
                predator,
                self.left as int,
                self.right as int,
                self.top as int,
                self.bottom as int,
            ) by {
                let m = mid[i];
                let f = spec_forces_total(s, i, *params, predator);
                assert(self.boids@[i] == spec_integrate_wrap(
                    m,
                    params.max_speed as int,
                    self.left as int,
                    self.right as int,
                    self.top as int,
                    self.bottom as int,
                ));
                assert(v2(m.velocity.x + m.acceleration.x, m.velocity.y + m.acceleration.y) == v2(
                    s[i].velocity.x + f.0,
                    s[i].velocity.y + f.1,
                ));
                assert(integrated_velocity(m, params.max_speed as int) == spec_frame_vel(
                    s,
                    i,
                    *params,
                    predator,
                ));
            }
            if old(self).boids@.len() >= params.num_boids {
                assert(s == old(self).boids@.take(params.num_boids as int));
            }
        }
    }

    /// Integrate and wrap every boid in place: the per-frame mutation pass
    /// that follows force aggregation.
    fn update_boids_position(&mut self, params: &BoidsSimulationParameters)
        requires
            old(self).wf(),
            params.wf(),
            forall|j: int|
                0 <= j < old(self).boids@.len() ==> accel_bounded(
                    (#[trigger] old(self).boids@[j]).acceleration,
                ),
        ensures
            final(self).wf(),
            final(self).at_rest(),
            final(self).left == old(self).left,
            final(self).right == old(self).right,
            final(self).top == old(self).top,
            final(self).bottom == old(self).bottom,
            final(self).boids@.len() == old(self).boids@.len(),
            forall|i: int|
                0 <= i < final(self).boids@.len() ==> #[trigger] final(self).boids@[i]
                    == spec_integrate_wrap(
                    old(self).boids@[i],
                    params.max_speed as int,
                    old(self).left as int,
                    old(self).right as int,
                    old(self).top as int,
                    old(self).bottom as int,
                ),
            forall|i: int|
                0 <= i < final(self).boids@.len() ==> len_sq(
                    (#[trigger] final(self).boids@[i]).velocity,
                ) <= params.max_speed * params.max_speed,
    {
        let ghost s = self.boids@;
        let n = self.boids.len();
        let mut k: usize = 0;
        while k < n
            invariant
                n == s.len(),
                self.boids@.len() == n,
                self.left == old(self).left,
                self.right == old(self).right,
                self.top == old(self).top,
                self.bottom == old(self).bottom,
                self.domain_ok(),
                params.wf(),
                k <= n,
                s == old(self).boids@,
                old(self).wf(),
                forall|j: int|
                    0 <= j < n ==> accel_bounded((#[trigger] s[j]).acceleration),
                forall|j: int| k <= j < n ==> #[trigger] self.boids@[j] == s[j],
                forall|j: int|
                    0 <= j < k ==> #[trigger] self.boids@[j] == spec_integrate_wrap(
                        s[j],
                        params.max_speed as int,
                        self.left as int,
                        self.right as int,
                        self.top as int,
                        self.bottom as int,
                    ),
                forall|j: int|
                    0 <= j < k ==> len_sq((#[trigger] self.boids@[j]).velocity)
                        <= params.max_speed * params.max_speed,
                forall|j: int| 0 <= j < k ==> self.boid_ok(#[trigger] self.boids@[j]),
                forall|j: int|
                    0 <= j < k ==> (#[trigger] self.boids@[j]).acceleration == zero_vec(),
            decreases n - k,
        {
            proof {
                assert((*old(self)).boid_ok(s[k as int]));
            }
            let mut b = self.boids[k];
            b.apply_forces(params.max_speed);
            b.wrap(self.left, self.right, self.top, self.bottom);
            proof {
                assert(b == spec_integrate_wrap(
                    s[k as int],
                    params.max_speed as int,
                    self.left as int,
                    self.right as int,
                    self.top as int,
                    self.bottom as int,
                ));
            }
            self.boids[k] = b;
            k = k + 1;
        }
    }
}

} // verus!
