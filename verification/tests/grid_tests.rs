use sim_lib::basic_types::Coord;
use sim_lib::grid::Grid;

#[test]
fn pheromones() {
    let mut grid = Grid::new(Coord { x: 10, y: 10 });

    let index = 15;
    let inc = 20;
    grid.increment_pheromone(index, inc);

    // increment once increments
    assert_eq!(inc, grid.tiles[index].pheromone_level);
    for _ in 0..300 {
        grid.increment_pheromone(index, 10);
    }

    // max at 255
    assert_eq!(255, grid.tiles[index].pheromone_level);

    grid.clear();
    assert_eq!(0, grid.tiles[index].pheromone_level);

    // DECREMENT
    let dec_index = index + 1;
    grid.increment_pheromone(dec_index, 10);
    grid.decrement_pheromone(dec_index, 5);

    assert_eq!(5, grid.tiles[dec_index].pheromone_level);

    grid.decrement_pheromone(dec_index, 10);
    grid.decrement_pheromone(dec_index, 10);

    assert_eq!(0, grid.tiles[dec_index].pheromone_level);
}

#[test]
fn decay_ticks_floor_at_zero() {
    let mut grid = Grid::new(Coord { x: 4, y: 4 });
    grid.increment_pheromone(3, 2);
    grid.decay_pheromones();
    assert_eq!(1, grid.tiles[3].pheromone_level);
    assert_eq!(0, grid.tiles[0].pheromone_level);
    grid.decay_pheromones();
    grid.decay_pheromones();
    assert_eq!(0, grid.tiles[3].pheromone_level);
}
