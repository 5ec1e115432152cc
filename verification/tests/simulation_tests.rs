use sim_lib::basic_types::{Action, Dir, Individual, Sensor, SimError};
use sim_lib::gene_functions::fixed_genome;
use sim_lib::simulation::SimulationBuilder;
use sim_lib::survival_criteria::SurvivalCriteria;

/// A single brain wired constant-sensor to move-forward walks its
/// individual one tile per step.
#[test]
fn forward_sim_1_step() {
    let mut sim = SimulationBuilder::new(128, 128)
        .sensor_neurons(vec![Sensor::Constant])
        .hidden_neurons(0)
        .action_neurons(vec![Action::MoveForward])
        .population_size(1)
        .genome_length(1)
        .build();

    sim.initialize_first_generation(Some(vec![fixed_genome(1, 0, 0)]));

    // Re-place the individual deterministically: facing down, one row in.
    let genome = sim.world.individuals[0].genome.clone();
    let mut indiv = Individual::new();

    indiv.genome = genome;
    indiv.forward = Dir::Down;

    let start = 128;
    indiv.grid_index = start;

    sim.world.reset(vec![indiv]).unwrap();

    sim.step_single_thread().unwrap();

    assert_eq!(start + 128, sim.world.individuals[0].grid_index);
}

#[test]
fn zero_survivors_is_a_named_failure() {
    let mut sim = SimulationBuilder::new(16, 16)
        .population_size(2)
        .genome_length(1)
        .criteria(SurvivalCriteria::TopPart(0))
        .generation_steps(1)
        .build();
    sim.initialize_first_generation(None);

    // the only step of generation 0 completes it
    assert_eq!(Ok(true), sim.step_single_thread());
    // the boundary finds no survivor and fails without changing anything
    assert_eq!(Err(SimError::NoSurvivors), sim.step_single_thread());
    assert_eq!(0, sim.generation());
    assert_eq!(Err(SimError::NoSurvivors), sim.run_generation());
}

#[test]
fn survival_rate_is_exact() {
    let mut sim = SimulationBuilder::new(16, 16)
        .population_size(4)
        .genome_length(1)
        .criteria(SurvivalCriteria::TopPart(10000))
        .generation_steps(1)
        .build();
    sim.initialize_first_generation(None);

    // everyone survives under the full-grid criterion
    assert_eq!(10000, sim.last_survival_rate());
    assert_eq!(Ok(true), sim.step_single_thread());
    // with one step per generation, the next call crosses the boundary and
    // immediately completes the new generation's only step too
    assert_eq!(Ok(true), sim.step_single_thread());
    assert_eq!(1, sim.generation());
    assert_eq!(10000, sim.last_survival_rate());
}

#[test]
fn run_generation_advances_counter() {
    let mut sim = SimulationBuilder::new(16, 16)
        .population_size(3)
        .genome_length(2)
        .criteria(SurvivalCriteria::TopPart(10000))
        .generation_steps(3)
        .build();
    sim.initialize_first_generation(None);

    assert_eq!(0, sim.generation());
    sim.run_generation().unwrap();
    assert_eq!(1, sim.generation());
    sim.run_generation().unwrap();
    assert_eq!(2, sim.generation());
    assert_eq!(3, sim.population_count());
}

#[test]
fn initial_placement_is_collision_free() {
    let mut sim = SimulationBuilder::new(10, 10)
        .population_size(50)
        .genome_length(1)
        .build();
    sim.initialize_first_generation(None);

    assert_eq!(50, sim.population_count());
    let world = sim.world();
    for i in 0..50 {
        let g = world.individuals[i].grid_index;
        assert!(g < 100);
        assert_eq!(Some(i), world.grid.tiles[g].individual_index);
        assert_eq!(i, world.individuals[i].index);
    }
}

#[test]
fn pheromones_survive_the_generation_boundary() {
    let mut sim = SimulationBuilder::new(16, 16)
        .population_size(1)
        .genome_length(1)
        .criteria(SurvivalCriteria::TopPart(10000))
        .generation_steps(1)
        .build();
    sim.initialize_first_generation(None);

    // pile pheromone on a corner tile, then cross one boundary
    for _ in 0..20 {
        sim.world.grid.increment_pheromone(0, 10);
    }
    assert_eq!(200, sim.world.grid.tiles[0].pheromone_level);
    assert_eq!(Ok(true), sim.step_single_thread());
    assert_eq!(Ok(true), sim.step_single_thread());
    assert_eq!(1, sim.generation());
    // two steps decayed it by two ticks; the boundary itself kept it
    assert_eq!(198, sim.world.grid.tiles[0].pheromone_level);
}

#[test]
fn mutation_preserves_genome_length() {
    let mut sim = SimulationBuilder::new(16, 16)
        .population_size(5)
        .genome_length(4)
        .mutation_rate(10000)
        .criteria(SurvivalCriteria::TopPart(10000))
        .generation_steps(1)
        .build();
    sim.initialize_first_generation(None);
    sim.run_generation().unwrap();

    for i in 0..5 {
        assert_eq!(4, sim.world.individuals[i].genome.len());
    }
}

/// Each step decays pheromones before the sense/decide/act phases, so an
/// emitting individual's own tile reads exactly the base level after the
/// first step, and decays once before each later emission.
#[test]
fn decay_runs_before_actions() {
    let mut sim = SimulationBuilder::new(32, 32)
        .sensor_neurons(vec![Sensor::Constant])
        .hidden_neurons(0)
        .action_neurons(vec![Action::EmitPheromones])
        .population_size(1)
        .genome_length(1)
        .criteria(SurvivalCriteria::TopPart(10000))
        .build();
    sim.initialize_first_generation(Some(vec![fixed_genome(1, 0, 0)]));

    sim.step_single_thread().unwrap();
    let home = sim.world().individuals[0].grid_index;
    assert_eq!(10, sim.world().grid.tiles[home].pheromone_level);

    sim.step_single_thread().unwrap();
    // decay first (10 -> 9), then a fresh emission of 10 on top
    assert_eq!(19, sim.world().grid.tiles[home].pheromone_level);
}

#[test]
fn reset_generation_keeps_genomes() {
    let mut sim = SimulationBuilder::new(16, 16)
        .population_size(3)
        .genome_length(2)
        .build();
    sim.initialize_first_generation(None);
    let genomes: Vec<_> = (0..3).map(|i| sim.world().individuals[i].genome.clone()).collect();

    sim.step_single_thread().unwrap();
    sim.reset_generation();

    for i in 0..3 {
        assert_eq!(genomes[i], sim.world().individuals[i].genome);
        assert_eq!(i, sim.world().individuals[i].index);
    }
}
