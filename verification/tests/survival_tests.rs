use sim_lib::basic_types::{Coord, Individual};
use sim_lib::combined_types::World;
use sim_lib::survival_criteria::{survive_border, survive_top, surviving_indexes, SurvivalCriteria};

#[test]
fn survive_top_none() {
    let mut world = World::new(Coord { x: 128, y: 128 });
    let mut indiv = Individual::new();

    indiv.grid_index = 64 * 128;

    world.add_individual(indiv);

    let indexes = surviving_indexes(&world, SurvivalCriteria::TopPart(1000));

    assert_eq!(0, indexes.len());

    assert_eq!(false, survive_top(&world, 1000, Coord { x: 128, y: 128 }));

    assert_eq!(false, survive_top(&world, 1000, Coord { x: 0, y: 128 }));

    assert_eq!(false, survive_top(&world, 1000, Coord { x: 1250, y: 15 }));
}

#[test]
fn survive_top_one() {
    let mut world = World::new(Coord { x: 128, y: 128 });
    let mut indiv = Individual::new();

    indiv.grid_index = 128 * 10;

    world.add_individual(indiv);

    let indexes = surviving_indexes(&world, SurvivalCriteria::TopPart(1000));

    assert_eq!(1, indexes.len())
}

#[test]
fn survive_border_test() {
    let world = World::new(Coord { x: 128, y: 128 });

    // TOP
    assert_eq!(true, survive_border(&world, 200, Coord { x: 123, y: 1 }));
    assert_eq!(true, survive_border(&world, 200, Coord { x: 123, y: 2 }));
    assert_eq!(false, survive_border(&world, 200, Coord { x: 123, y: 3 }));

    // BOTTOM
    assert_eq!(true, survive_border(&world, 200, Coord { x: 123, y: 127 }));
    assert_eq!(true, survive_border(&world, 200, Coord { x: 123, y: 126 }));
    assert_eq!(false, survive_border(&world, 200, Coord { x: 123, y: 125 }));

    assert_eq!(true, survive_border(&world, 200, Coord { x: 64, y: 126 }));
}

#[test]
fn surviving_indexes_keep_slot_order() {
    let mut world = World::new(Coord { x: 128, y: 128 });

    let mut a = Individual::new();
    a.grid_index = 128 * 5;
    world.add_individual(a);
    let mut b = Individual::new();
    b.grid_index = 128 * 64;
    world.add_individual(b);
    let mut c = Individual::new();
    c.grid_index = 128 * 11 + 3;
    world.add_individual(c);

    let indexes = surviving_indexes(&world, SurvivalCriteria::TopPart(1000));
    assert_eq!(vec![0, 2], indexes);
}

#[test]
fn center_criterion_is_strict() {
    let mut world = World::new(Coord { x: 128, y: 128 });
    let mut indiv = Individual::new();
    // exactly 5 cells left of the centre point
    indiv.grid_index = 64 * 128 + 59;
    world.add_individual(indiv);

    let inside = surviving_indexes(
        &world,
        SurvivalCriteria::Center(Coord { x: 64, y: 64 }, 6),
    );
    assert_eq!(1, inside.len());

    let on_radius = surviving_indexes(
        &world,
        SurvivalCriteria::Center(Coord { x: 64, y: 64 }, 5),
    );
    assert_eq!(0, on_radius.len());
}

#[test]
fn pheromone_criteria_threshold() {
    let mut world = World::new(Coord { x: 16, y: 16 });
    let mut indiv = Individual::new();
    indiv.grid_index = 17;
    world.add_individual(indiv);

    assert_eq!(1, surviving_indexes(&world, SurvivalCriteria::NoPheromones).len());
    assert_eq!(0, surviving_indexes(&world, SurvivalCriteria::RequirePheromones).len());

    world.grid.increment_pheromone(17, 9);
    assert_eq!(0, surviving_indexes(&world, SurvivalCriteria::RequirePheromones).len());
    world.grid.increment_pheromone(17, 1);
    assert_eq!(1, surviving_indexes(&world, SurvivalCriteria::RequirePheromones).len());
    assert_eq!(0, surviving_indexes(&world, SurvivalCriteria::NoPheromones).len());
}

#[test]
fn survive_cells_column_major() {
    let world = World::new(Coord { x: 4, y: 4 });
    let cells = sim_lib::survival_criteria::survive_cells(&world, SurvivalCriteria::TopPart(10000));
    assert_eq!(16, cells.len());
    assert_eq!(Coord { x: 0, y: 0 }, cells[0]);
    assert_eq!(Coord { x: 0, y: 1 }, cells[1]);
    assert_eq!(Coord { x: 1, y: 0 }, cells[4]);

    let top = sim_lib::survival_criteria::survive_cells(&world, SurvivalCriteria::TopPart(5000));
    assert_eq!(8, top.len());
}
