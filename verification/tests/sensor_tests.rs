use sim_lib::basic_types::{Coord, Dir, Individual, Sensor};
use sim_lib::combined_types::World;
use sim_lib::sensor_neurons::{
    get_sensor_input, location_x, location_y, world_border_dist_x, world_border_dist_y,
};

fn create_test_world() -> World {
    World::new(Coord { x: 128, y: 128 })
}

#[test]
fn location_test() {
    let world = create_test_world();

    let mut indiv_0_0 = Individual::new();
    indiv_0_0.grid_index = 128 / 2 + 128 * 128 / 2;

    let dist_x = location_x(&world, &indiv_0_0);
    let dist_y = location_y(&world, &indiv_0_0);

    assert_eq!(0, dist_x);
    assert_eq!(0, dist_y);

    let mut indiv_bottom_west = Individual::new();
    indiv_bottom_west.grid_index = 128 * 127;

    let dist_x = location_x(&world, &indiv_bottom_west);
    let dist_y = location_y(&world, &indiv_bottom_west);

    // -1.0 at the west edge, 127/128 of the way down: exact fixed point.
    assert_eq!(-10000, dist_x);
    assert_eq!(9843, dist_y);
}

#[test]
fn world_border_dist_test() {
    let world = create_test_world();

    let mut indiv_0_0 = Individual::new();
    indiv_0_0.grid_index = 128 / 2 + 128 * 128 / 2;

    let dist_x = world_border_dist_x(&world, &indiv_0_0);
    let dist_y = world_border_dist_y(&world, &indiv_0_0);

    assert_eq!(10000, dist_x);
    assert_eq!(10000, dist_y);

    let mut indiv_bottom_west = Individual::new();
    indiv_bottom_west.grid_index = 128 * 127;

    let dist_x = world_border_dist_x(&world, &indiv_bottom_west);
    let dist_y = world_border_dist_y(&world, &indiv_bottom_west);

    assert_eq!(0, dist_x);
    assert_eq!(157, dist_y);
}

#[test]
fn blocked_forward_test() {
    let mut world = create_test_world();

    let mut indiv_64_64 = Individual::new();
    indiv_64_64.forward = Dir::Up;
    indiv_64_64.grid_index = 64 + 128 * 128 / 2;
    let i0_index = world.add_individual(indiv_64_64);

    let mut indiv_64_63 = Individual::new();
    indiv_64_63.forward = Dir::Up;
    indiv_64_63.grid_index = 128 / 2 + 128 * (128 / 2 - 1);
    let i1_index = world.add_individual(indiv_64_63);

    let is_blocked = get_sensor_input(Sensor::BlockedForward, &world, &world.individuals[i0_index]);
    assert_eq!(10000, is_blocked);

    let is_blocked = get_sensor_input(Sensor::BlockedForward, &world, &world.individuals[i1_index]);
    assert_eq!(0, is_blocked);
}

#[test]
fn random_sensor_stays_in_range() {
    let world = create_test_world();
    let indiv = Individual::new();
    for _ in 0..200 {
        let r = get_sensor_input(Sensor::Random, &world, &indiv);
        assert!(-10000 <= r && r < 10000);
    }
}
