use vstd::prelude::*;
use crate::randomness;
use crate::survival_criteria::SurvivalCriteria;

verus! {

/// Number of bits in one packed gene: 16 weight bits, 8 target bits, 8 source bits.
pub const GENE_BITS: usize = 32;

/// Upper bound on the genes of one genome, so that accumulated neuron
/// signals provably stay inside `i64` during network evaluation.
pub const MAX_GENOME_LENGTH: usize = 1000000;

/// One 32-bit connection descriptor: source neuron, target neuron, weight.
///
/// The two index fields are read modulo the current neuron-pool sizes at
/// decode time, so every byte value is a valid (wrapped) reference and no
/// genome is ever invalid.
#[derive(Debug, Clone, Copy, PartialEq, Eq, Structural)]
pub struct Gene {
    pub from_neuron: u8,
    pub to_neuron: u8,
    pub weight: i16,
}

/// Fixed-length ordered list of genes encoding a sparse neural circuit.
pub type Genome = Vec<Gene>;

/// The sensor kinds an individual can read the world through.
#[derive(Debug, Clone, Copy, PartialEq, Eq, Structural)]
pub enum Sensor {
    LocY,
    LocX,
    WorldBorderDistX,
    WorldBorderDistY,
    BlockedForward,
    Random,
    Constant,
}

/// The action kinds a network output can drive.
///
/// `SetOscPeriod` and `SetResponsiveness` are declared extension points with
/// no current world effect.
#[derive(Debug, Clone, Copy, PartialEq, Eq, Structural)]
pub enum Action {
    MoveForward,
    MoveX,
    MoveY,
    EmitPheromones,
    SetOscPeriod,
    SetResponsiveness,
}

/// One of the four cardinal facing directions.
#[derive(Debug, Clone, Copy, PartialEq, Eq, Structural)]
pub enum Dir {
    Up,
    Down,
    Left,
    Right,
}

/// The sensor list in its canonical order.
pub open spec fn all_sensors_spec() -> Seq<Sensor> {
    seq![
        Sensor::LocY,
        Sensor::LocX,
        Sensor::WorldBorderDistX,
        Sensor::WorldBorderDistY,
        Sensor::BlockedForward,
        Sensor::Random,
        Sensor::Constant,
    ]
}

/// The action list in its canonical order.
pub open spec fn all_actions_spec() -> Seq<Action> {
    seq![
        Action::MoveForward,
        Action::MoveX,
        Action::MoveY,
        Action::EmitPheromones,
        Action::SetOscPeriod,
        Action::SetResponsiveness,
    ]
}

/// All sensor kinds, in canonical order.
pub fn all_sensors() -> (r: Vec<Sensor>)
    ensures
        r@ == all_sensors_spec(),
{
    let mut r: Vec<Sensor> = Vec::new();
    r.push(Sensor::LocY);
    r.push(Sensor::LocX);
    r.push(Sensor::WorldBorderDistX);
    r.push(Sensor::WorldBorderDistY);
    r.push(Sensor::BlockedForward);
    r.push(Sensor::Random);
    r.push(Sensor::Constant);
    proof {
        assert(r@ =~= all_sensors_spec());
    }
    r
}

/// All action kinds, in canonical order.
pub fn all_actions() -> (r: Vec<Action>)
    ensures
        r@ == all_actions_spec(),
{
    let mut r: Vec<Action> = Vec::new();
    r.push(Action::MoveForward);
    r.push(Action::MoveX);
    r.push(Action::MoveY);
    r.push(Action::EmitPheromones);
    r.push(Action::SetOscPeriod);
    r.push(Action::SetResponsiveness);
    proof {
        assert(r@ =~= all_actions_spec());
    }
    r
}

/// Row-major grid address; `index = y * width + x`.
#[derive(Debug, Clone, Copy, PartialEq, Eq, Structural)]
pub struct Coord {
    pub x: usize,
    pub y: usize,
}

/// One simulated agent: genome, grid position, stable slot index, facing.
#[derive(Debug, Clone)]
pub struct Individual {
    pub genome: Genome,
    pub grid_index: usize,
    pub index: usize,
    pub forward: Dir,
}

impl Individual {
    /// Fresh individual with an empty genome, placed at the grid origin,
    /// facing a uniformly random direction.
    pub fn new() -> (r: Individual)
        ensures
            r.genome@ == Seq::<Gene>::empty(),
            r.grid_index == 0,
            r.index == 0,
    {
        let d = randomness::random_below(4);
        let forward = if d == 0 {
            Dir::Up
        } else if d == 1 {
            Dir::Down
        } else if d == 2 {
            Dir::Left
        } else {
            Dir::Right
        };
        Individual { genome: Vec::new(), grid_index: 0, index: 0, forward }
    }
}

/// One network output: which action fires, with what signed signal strength
/// (fixed-point, `signal::SCALE` = 1.0), for which individual slot.
#[derive(Debug, Clone, Copy, PartialEq, Eq, Structural)]
pub struct Activation {
    pub action: Action,
    pub weight: i64,
    pub indiv_index: usize,
}

/// The simulation's tunable parameters.
///
/// `mutation_rate` is a fraction in ten-thousandths (10000 = certainty), as
/// are the fractional survival-criterion parameters.
#[derive(Debug, Clone)]
pub struct Configuration {
    pub hidden_neurons: usize,
    pub generation_steps: usize,
    pub mutation_rate: u32,
    pub population_size: usize,
    pub genome_length: usize,
    pub criteria: SurvivalCriteria,
    pub sensor_neurons: Vec<Sensor>,
    pub action_neurons: Vec<Action>,
}

impl Configuration {
    /// Internal consistency: the bounds every simulation run relies on.
    pub open spec fn valid(self) -> bool {
        &&& self.population_size >= 1
        &&& self.genome_length <= MAX_GENOME_LENGTH
        &&& self.mutation_rate <= 10000
        &&& self.generation_steps >= 1
        &&& self.criteria.valid()
        &&& self.sensor_neurons@.len() + self.hidden_neurons >= 1
        &&& self.hidden_neurons + self.action_neurons@.len() >= 1
        &&& self.sensor_neurons@.len() + self.hidden_neurons <= usize::MAX
        &&& self.hidden_neurons + self.action_neurons@.len() <= usize::MAX
    }
}

impl Default for Configuration {
    /// Defaults: border survival at 1%, genome of 24 genes, 1000 individuals,
    /// 5 hidden neurons, 300 steps per generation, no mutation, every sensor
    /// and action enabled.
    fn default() -> (r: Configuration)
        ensures
            r.hidden_neurons == 5,
            r.generation_steps == 300,
            r.mutation_rate == 0,
            r.population_size == 1000,
            r.genome_length == 24,
            r.criteria == SurvivalCriteria::Border(100u32),
            r.sensor_neurons@ == all_sensors_spec(),
            r.action_neurons@ == all_actions_spec(),
            r.valid(),
    {
        Configuration {
            hidden_neurons: 5,
            generation_steps: 300,
            mutation_rate: 0,
            population_size: 1000,
            genome_length: 24,
            criteria: SurvivalCriteria::Border(100),
            sensor_neurons: all_sensors(),
            action_neurons: all_actions(),
        }
    }
}

/// The named fatal conditions of the simulation core.
#[derive(Debug, Clone, Copy, PartialEq, Eq, Structural)]
pub enum SimError {
    /// No individual met the survival criterion at a generation boundary.
    NoSurvivors,
    /// Two individuals were handed to a world reset on the same start tile;
    /// the fields identify the offender.
    StartTileCollision { indiv_index: usize, grid_index: usize },
}

} // verus!
