use sim_lib::action_neurons::perform_action;
use sim_lib::basic_types::{Action, Activation, Coord, Dir, Individual};
use sim_lib::combined_types::World;
use sim_lib::index_functions::index_to_coord;

fn create_test_world() -> World {
    World::new(Coord { x: 128, y: 128 })
}

#[test]
fn move_forward() {
    let mut world = create_test_world();

    let mut indiv = Individual::new();
    indiv.forward = Dir::Up;
    indiv.grid_index = 128 / 2 + 128 * (128 / 2 - 1);
    let old_grid_index = indiv.grid_index;
    let indiv_index = world.add_individual(indiv);

    perform_action(
        &Activation { action: Action::MoveForward, weight: 1000, indiv_index },
        &mut world,
    );

    // No movement below the 0.2 threshold.
    assert_eq!(old_grid_index, world.individuals[indiv_index].grid_index);

    perform_action(
        &Activation { action: Action::MoveForward, weight: 10000, indiv_index },
        &mut world,
    );
    assert_eq!(old_grid_index - 128, world.individuals[indiv_index].grid_index);
}

#[test]
fn move_down_last_row() {
    let mut world = create_test_world();

    let mut indiv = Individual::new();
    indiv.forward = Dir::Down;
    indiv.grid_index = 128 * 128 - 150;

    let old_grid_index = indiv.grid_index;
    let indiv_index = world.add_individual(indiv);

    let old_coord = index_to_coord(old_grid_index, world.grid.size);

    assert_eq!(126, old_coord.y);

    perform_action(
        &Activation { action: Action::MoveForward, weight: 10000, indiv_index },
        &mut world,
    );

    let new_coord = index_to_coord(world.individuals[indiv_index].grid_index, world.grid.size);
    assert_eq!(127, new_coord.y);
}

#[test]
fn move_off_edge_is_a_no_op() {
    let mut world = create_test_world();
    let mut indiv = Individual::new();
    indiv.forward = Dir::Up;
    indiv.grid_index = 5;
    let indiv_index = world.add_individual(indiv);

    perform_action(
        &Activation { action: Action::MoveForward, weight: 10000, indiv_index },
        &mut world,
    );
    assert_eq!(5, world.individuals[indiv_index].grid_index);
}

#[test]
fn move_into_occupied_tile_is_a_no_op() {
    let mut world = create_test_world();
    let mut a = Individual::new();
    a.forward = Dir::Right;
    a.grid_index = 10;
    let ia = world.add_individual(a);
    let mut b = Individual::new();
    b.grid_index = 11;
    let ib = world.add_individual(b);

    perform_action(&Activation { action: Action::MoveForward, weight: 10000, indiv_index: ia }, &mut world);
    assert_eq!(10, world.individuals[ia].grid_index);
    assert_eq!(11, world.individuals[ib].grid_index);
    assert_eq!(Some(ia), world.grid.tiles[10].individual_index);
    assert_eq!(Some(ib), world.grid.tiles[11].individual_index);
}

#[test]
fn emit_pheromones() {
    let mut world = create_test_world();

    let mut indiv = Individual::new();

    let index = 64 * 128 + 64;
    indiv.grid_index = index;

    let indiv_index = world.add_individual(indiv);

    perform_action(
        &Activation { action: Action::EmitPheromones, weight: 10000, indiv_index },
        &mut world,
    );

    assert_eq!(10, world.grid.tiles[index].pheromone_level);

    assert_eq!(1, world.grid.tiles[index - 5].pheromone_level);
}

#[test]
fn emit_pheromones_2() {
    let mut world = create_test_world();

    let mut indiv = Individual::new();

    let index = 0;
    indiv.grid_index = index;

    let indiv_index = world.add_individual(indiv);

    perform_action(
        &Activation { action: Action::EmitPheromones, weight: 10000, indiv_index },
        &mut world,
    );

    assert_eq!(10, world.grid.tiles[index].pheromone_level);

    assert_eq!(1, world.grid.tiles[index + 128 * 5].pheromone_level);
}

#[test]
fn emit_falloff_levels() {
    let mut world = create_test_world();
    let mut indiv = Individual::new();
    let index = 64 * 128 + 64;
    indiv.grid_index = index;
    let indiv_index = world.add_individual(indiv);

    perform_action(
        &Activation { action: Action::EmitPheromones, weight: 10000, indiv_index },
        &mut world,
    );

    // round(10 * exp(-d^2 / 12)) along one axis, then nothing past radius 5.
    assert_eq!(9, world.grid.tiles[index + 1].pheromone_level);
    assert_eq!(7, world.grid.tiles[index + 2].pheromone_level);
    assert_eq!(5, world.grid.tiles[index + 3].pheromone_level);
    assert_eq!(3, world.grid.tiles[index + 4].pheromone_level);
    assert_eq!(1, world.grid.tiles[index + 5].pheromone_level);
    assert_eq!(0, world.grid.tiles[index + 6].pheromone_level);
    // the diagonal corner of the disk: d^2 = 25 exactly.
    assert_eq!(1, world.grid.tiles[index + 3 + 128 * 4].pheromone_level);
}
