//! Sensor functions: pure readings of the world from one individual's
//! viewpoint, as fixed-point signals in [-1.0, 1.0].
use vstd::prelude::*;
use vstd::math::abs;
use crate::basic_types::{Individual, Sensor};
use crate::combined_types::World;
use crate::randomness;
use crate::signal::SCALE;

verus! {

/// Horizontal position scaled to [-1.0, 1.0): -1.0 at the west edge.
pub open spec fn location_x_spec(world: World, grid_index: int) -> int {
    (grid_index % (world.grid.size.x as int)) * 20000 / (world.grid.size.x as int) - 10000
}

/// Vertical position scaled to [-1.0, 1.0): -1.0 at the north edge.
pub open spec fn location_y_spec(world: World, grid_index: int) -> int {
    (grid_index / (world.grid.size.x as int)) * 20000 / (world.grid.size.y as int) - 10000
}

/// Distance to the nearest vertical border: 1.0 at the centre, 0 at an edge.
pub open spec fn world_border_dist_x_spec(world: World, grid_index: int) -> int {
    10000 - abs(location_x_spec(world, grid_index))
}

/// Distance to the nearest horizontal border: 1.0 at the centre, 0 at an
/// edge.
pub open spec fn world_border_dist_y_spec(world: World, grid_index: int) -> int {
    10000 - abs(location_y_spec(world, grid_index))
}

/// What each deterministic sensor reads; the `Random` arm is never relied
/// on (that sensor draws fresh).
pub open spec fn sensor_input_spec(sensor: Sensor, world: World, indiv: Individual) -> int {
    match sensor {
        Sensor::Constant => SCALE as int,
        Sensor::Random => 0,
        Sensor::LocX => location_x_spec(world, indiv.grid_index as int),
        Sensor::LocY => location_y_spec(world, indiv.grid_index as int),
        Sensor::WorldBorderDistX => world_border_dist_x_spec(world, indiv.grid_index as int),
        Sensor::WorldBorderDistY => world_border_dist_y_spec(world, indiv.grid_index as int),
        Sensor::BlockedForward => if world.is_dir_empty_spec(indiv.grid_index as int, indiv.forward) {
            0
        } else {
            SCALE as int
        },
    }
}

/// A fraction of the way across an extent, scaled to [-1.0, 1.0).
fn axis_position(numerator: usize, extent: usize) -> (r: i64)
    requires
        1 <= extent <= 0xFFFF_FFFFusize,
        numerator < extent,
    ensures
        r == (numerator as int) * 20000 / (extent as int) - 10000,
        -10000 <= r < 10000,
{
    proof {
        assert((numerator as int) * 20000 / (extent as int) < 20000 && 0 <= (numerator as int)
            * 20000 / (extent as int) && (numerator as int) * 20000 <= 0xFFFF_FFFFu64 * 20000)
            by (nonlinear_arith)
            requires
                1 <= extent <= 0xFFFF_FFFFusize,
                0 <= numerator < extent,
        ;
    }
    let p = (numerator as u64) * 20000 / (extent as u64);
    (p as i64) - 10000
}

/// Horizontal position of an individual's tile, -1.0 west to 1.0 east.
pub fn location_x(world: &World, indiv: &Individual) -> (r: i64)
    requires
        world.grid.wf(),
        indiv.grid_index < world.grid.tiles@.len(),
    ensures
        r == location_x_spec(*world, indiv.grid_index as int),
        -10000 <= r < 10000,
{
    axis_position(indiv.grid_index % world.grid.size.x, world.grid.size.x)
}

/// Vertical position of an individual's tile, -1.0 north to 1.0 south.
pub fn location_y(world: &World, indiv: &Individual) -> (r: i64)
    requires
        world.grid.wf(),
        indiv.grid_index < world.grid.tiles@.len(),
    ensures
        r == location_y_spec(*world, indiv.grid_index as int),
        -10000 <= r < 10000,
{
    let w = world.grid.size.x;
    let h = world.grid.size.y;
    let row = indiv.grid_index / w;
    proof {
        assert(row < h) by (nonlinear_arith)
            requires
                w >= 1,
                h >= 1,
                row == indiv.grid_index as int / w as int,
                indiv.grid_index < w * h,
        ;
    }
    axis_position(row, h)
}

/// Distance to the nearest vertical border: 0 at an edge, 1.0 centred.
pub fn world_border_dist_x(world: &World, indiv: &Individual) -> (r: i64)
    requires
        world.grid.wf(),
        indiv.grid_index < world.grid.tiles@.len(),
    ensures
        r == world_border_dist_x_spec(*world, indiv.grid_index as int),
        0 <= r <= 10000,
{
    let loc = location_x(world, indiv);
    10000 - (if loc < 0 {
        -loc
    } else {
        loc
    })
}

/// Distance to the nearest horizontal border: 0 at an edge, 1.0 centred.
pub fn world_border_dist_y(world: &World, indiv: &Individual) -> (r: i64)
    requires
        world.grid.wf(),
        indiv.grid_index < world.grid.tiles@.len(),
    ensures
        r == world_border_dist_y_spec(*world, indiv.grid_index as int),
        0 <= r <= 10000,
{
    let loc = location_y(world, indiv);
    10000 - (if loc < 0 {
        -loc
    } else {
        loc
    })
}

/// Read one sensor for one individual.
///
/// Every reading lies in [-1.0, 1.0]; every sensor but `Random` reads
/// exactly its spec value, while `Random` draws fresh each call.
pub fn get_sensor_input(sensor: Sensor, world: &World, indiv: &Individual) -> (r: i64)
    requires
        world.grid.wf(),
        indiv.grid_index < world.grid.tiles@.len(),
    ensures
        -SCALE <= r <= SCALE,
        sensor != Sensor::Random ==> r == sensor_input_spec(sensor, *world, *indiv),
{
    match sensor {
        Sensor::Constant => SCALE,
        Sensor::Random => randomness::random_signal(),
        Sensor::LocX => location_x(world, indiv),
        Sensor::LocY => location_y(world, indiv),
        Sensor::WorldBorderDistX => world_border_dist_x(world, indiv),
        Sensor::WorldBorderDistY => world_border_dist_y(world, indiv),
        Sensor::BlockedForward => {
            if world.is_dir_empty(indiv.grid_index, indiv.forward) {
                0
            } else {
                SCALE
            }
        },
    }
}

} // verus!
