//! The tunable configuration of the simulation: force weights, radii, speed
//! and force caps, and the target population.

use crate::boid::POPULATION_LIMIT;
use crate::vec2::iabs;
use crate::vec2::COORD_LIMIT;
use crate::vec2::WEIGHT_LIMIT;
use vstd::prelude::*;

verus! {

/// Plain configuration data, owned by the caller and read by the engine each
/// frame. Scalars are fixed-point: one thousand units stand for one screen
/// pixel, so the defaults below mirror a top speed of five pixels per step,
/// a force cap of half a pixel and radii of fifty and seventy-five pixels.
#[derive(Clone, Copy, PartialEq, Eq, Structural, Debug)]
pub struct BoidsSimulationParameters {
    pub num_boids: usize,
    pub max_speed: i64,
    pub max_force: i64,
    pub separation_weight: i64,
    pub alignment_weight: i64,
    pub avoidance_weight: i64,
    pub cohesion_weight: i64,
    pub neighbor_radius: i64,
    pub avoidance_radius: i64,
}

impl BoidsSimulationParameters {
    /// The ranges the engine admits: non-negative caps and bounded scalars,
    /// so that no intermediate product can overflow. Weights may be zero or
    /// negative, and radii may be zero; neither makes the engine divide by
    /// zero or panic.
    pub open spec fn wf(self) -> bool {
        &&& self.num_boids <= POPULATION_LIMIT
        &&& 0 <= self.max_speed <= COORD_LIMIT
        &&& 0 <= self.max_force <= COORD_LIMIT
        &&& iabs(self.separation_weight as int) <= WEIGHT_LIMIT
        &&& iabs(self.alignment_weight as int) <= WEIGHT_LIMIT
        &&& iabs(self.avoidance_weight as int) <= WEIGHT_LIMIT
        &&& iabs(self.cohesion_weight as int) <= WEIGHT_LIMIT
        &&& iabs(self.neighbor_radius as int) <= COORD_LIMIT
        &&& iabs(self.avoidance_radius as int) <= COORD_LIMIT
    }

    pub open spec fn spec_default() -> BoidsSimulationParameters {
        BoidsSimulationParameters {
            num_boids: 100,
            max_speed: 5_000,
            max_force: 500,
            separation_weight: 1,
            alignment_weight: 1,
            avoidance_weight: 1,
            cohesion_weight: 1,
            neighbor_radius: 50_000,
            avoidance_radius: 75_000,
        }
    }

    /// Reset every field to its default: a pure value replacement.
    pub fn reset(&mut self)
        ensures
            *final(self) == Self::spec_default(),
            final(self).wf(),
    {
        *self = Self::default();
    }
}

impl Default for BoidsSimulationParameters {
    fn default() -> (r: Self)
        ensures
            r == Self::spec_default(),
            r.wf(),
    {
        BoidsSimulationParameters {
            num_boids: 100,
            max_speed: 5_000,
            max_force: 500,
            separation_weight: 1,
            alignment_weight: 1,
            avoidance_weight: 1,
            cohesion_weight: 1,
            neighbor_radius: 50_000,
            avoidance_radius: 75_000,
        }
    }
}

} // verus!
