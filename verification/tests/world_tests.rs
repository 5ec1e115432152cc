use sim_lib::basic_types::{Coord, Individual, SimError};
use sim_lib::combined_types::World;

#[test]
fn reset_rejects_colliding_start_tiles() {
    let mut world = World::new(Coord { x: 8, y: 8 });
    let mut a = Individual::new();
    a.grid_index = 5;
    let mut b = Individual::new();
    b.grid_index = 9;
    let mut c = Individual::new();
    c.grid_index = 5;

    let r = world.reset(vec![a, b, c]);
    assert_eq!(Err(SimError::StartTileCollision { indiv_index: 2, grid_index: 5 }), r);
}

#[test]
fn reset_rederives_slot_indices() {
    let mut world = World::new(Coord { x: 8, y: 8 });
    let mut a = Individual::new();
    a.grid_index = 5;
    a.index = 42;
    let mut b = Individual::new();
    b.grid_index = 9;
    b.index = 42;

    world.reset(vec![a, b]).unwrap();
    assert_eq!(0, world.individuals[0].index);
    assert_eq!(1, world.individuals[1].index);
    assert_eq!(Some(0), world.grid.tiles[5].individual_index);
    assert_eq!(Some(1), world.grid.tiles[9].individual_index);
    assert_eq!(None, world.grid.tiles[0].individual_index);
}

#[test]
fn legal_move_updates_both_tiles() {
    let mut world = World::new(Coord { x: 8, y: 8 });
    let mut a = Individual::new();
    a.grid_index = 9;
    let ia = world.add_individual(a);
    world.grid.increment_pheromone(9, 7);

    world.move_indiv_dir(ia, sim_lib::basic_types::Dir::Right);
    assert_eq!(10, world.individuals[ia].grid_index);
    assert_eq!(None, world.grid.tiles[9].individual_index);
    assert_eq!(Some(ia), world.grid.tiles[10].individual_index);
    // pheromone stays on the vacated tile
    assert_eq!(7, world.grid.tiles[9].pheromone_level);
}
