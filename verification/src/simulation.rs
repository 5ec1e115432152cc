//! The generational state machine: parallel-shaped sense/decide, serial
//! apply, pheromone decay, and survivor-based reproduction with mutation.
//!
//! Each step runs in fixed order: pheromones decay first, then every brain
//! evaluates against the world read-only, then the collected activations
//! apply serially in slot order. Nothing mutates the world during the
//! evaluation phase, so no individual observes another's in-flight action.
use vstd::prelude::*;
use crate::basic_types::{
    Activation, Configuration, Gene, Genome, Individual, SimError, MAX_GENOME_LENGTH,
};
use crate::combined_types::{individual_at_mut, World};
use crate::basic_types::Coord;
use crate::action_neurons;
use crate::gene_functions;
use crate::gene_functions::mutated_from;
use crate::grid::GridTile;
use crate::network::Network;
use crate::randomness;
use crate::survival_criteria as sc;
use crate::survival_criteria::{match_criteria_spec, surviving_indexes_spec, SurvivalCriteria};

verus! {

/// What one completed generation left behind: its survival rate, as a
/// fraction of the population in ten-thousandths.
#[derive(Debug, Clone, Copy, PartialEq, Eq, Structural)]
pub struct GenerationStats {
    pub survival_rate: u32,
}

/// Whether an individual of the next generation descends correctly from
/// the previous world: its genome is a clone of some survivor's, point-
/// mutated at the given rate (see [`mutated_from`]).
pub open spec fn offspring_ok(
    child: Individual,
    prev: World,
    criteria: SurvivalCriteria,
    rate: u32,
) -> bool {
    exists|s: int|
        0 <= s < prev.individuals@.len() && match_criteria_spec(
            prev,
            criteria,
            (#[trigger] prev.individuals@[s]).grid_index as int,
        ) && mutated_from(child.genome@, prev.individuals@[s].genome@, rate)
}

/// The survival rate of a world under a criterion, in ten-thousandths of
/// the population size.
pub open spec fn survival_rate_spec(world: World, criteria: SurvivalCriteria, population: int) -> int {
    (surviving_indexes_spec(world, criteria).len() * 10000) as int / population
}

/// Copy a genome gene by gene.
fn copy_genome(g: &Genome) -> (r: Genome)
    ensures
        r@ == g@,
{
    let mut r: Genome = Vec::new();
    let n = g.len();
    let mut i: usize = 0;
    while i < n
        invariant
            i <= n,
            n == g@.len(),
            r@ == g@.take(i as int),
        decreases n - i,
    {
        let gene = g[i];
        r.push(gene);
        proof {
            assert(r@ =~= g@.take(i + 1));
        }
        i = i + 1;
    }
    proof {
        assert(g@.take(n as int) =~= g@);
    }
    r
}

/// Write access to one brain slot.
fn brain_at_mut(v: &mut Vec<Network>, i: usize) -> (r: &mut Network)
    requires
        i < old(v)@.len(),
    ensures
        *r == old(v)@[i as int],
        final(v)@ == old(v)@.update(i as int, *final(r)),
{
    &mut v[i]
}

/// The tile indices 0 to `n - 1`, in order.
fn range_vec(n: usize) -> (r: Vec<usize>)
    ensures
        r@.len() == n,
        forall|i: int| 0 <= i < n ==> r@[i] == i,
{
    let mut r: Vec<usize> = Vec::new();
    let mut i: usize = 0;
    while i < n
        invariant
            i <= n,
            r@.len() == i,
            forall|k: int| 0 <= k < i ==> r@[k] == k,
        decreases n - i,
    {
        r.push(i);
        i = i + 1;
    }
    r
}

/// Scatter the individuals over the grid: a random permutation of all tile
/// indices is drawn, and individual `i` takes its `i`-th entry, so the
/// assigned start tiles are pairwise distinct and in bounds. Nothing else
/// about any individual changes.
fn set_individual_grid_index_random(n_tiles: usize, indivs: &mut Vec<Individual>)
    requires
        old(indivs)@.len() <= n_tiles,
    ensures
        final(indivs)@.len() == old(indivs)@.len(),
        forall|i: int|
            0 <= i < old(indivs)@.len() ==> {
                &&& (#[trigger] final(indivs)@[i]).genome == old(indivs)@[i].genome
                &&& final(indivs)@[i].index == old(indivs)@[i].index
                &&& final(indivs)@[i].forward == old(indivs)@[i].forward
                &&& final(indivs)@[i].grid_index < n_tiles
            },
        forall|i: int, j: int|
            0 <= i < j < old(indivs)@.len() ==> (#[trigger] final(indivs)@[i]).grid_index != (
            #[trigger] final(indivs)@[j]).grid_index,
{
    let mut grid_indices = range_vec(n_tiles);
    let ghost base = grid_indices@;
    randomness::shuffle(&mut grid_indices);
    proof {
        let perm = grid_indices@;
        assert(base.no_duplicates());
        base.lemma_multiset_has_no_duplicates();
        base.to_multiset_ensures();
        perm.to_multiset_ensures();
        assert forall|x: usize| perm.to_multiset().contains(x) implies perm.to_multiset().count(x)
            == 1 by {
            assert(base.to_multiset().count(x) == perm.to_multiset().count(x));
            assert(base.to_multiset().contains(x));
        }
        perm.lemma_multiset_has_no_duplicates_conv();
        assert forall|k: int| 0 <= k < n_tiles implies (#[trigger] perm[k]) < n_tiles by {
            assert(perm.contains(perm[k]));
            assert(perm.to_multiset().count(perm[k]) > 0);
            assert(base.to_multiset().count(perm[k]) > 0);
            assert(base.contains(perm[k]));
            let idx = choose|i: int| 0 <= i < base.len() && base[i] == perm[k];
            assert(base[idx] == idx as usize);
        }
    }
    let n = indivs.len();
    let mut i: usize = 0;
    while i < n
        invariant
            i <= n,
            n == indivs@.len(),
            n <= n_tiles,
            grid_indices@.len() == n_tiles,
            grid_indices@.no_duplicates(),
            forall|k: int| 0 <= k < n_tiles ==> (#[trigger] grid_indices@[k]) < n_tiles,
            forall|k: int|
                0 <= k < n ==> {
                    &&& (#[trigger] indivs@[k]).genome == old(indivs)@[k].genome
                    &&& indivs@[k].index == old(indivs)@[k].index
                    &&& indivs@[k].forward == old(indivs)@[k].forward
                },
            forall|k: int|
                0 <= k < i ==> (#[trigger] indivs@[k]).grid_index == grid_indices@[k],
        decreases n - i,
    {
        let g = grid_indices[i];
        let ind = individual_at_mut(indivs, i);
        ind.grid_index = g;
        i = i + 1;
    }
}

/// Drop the occupants from every tile, keeping pheromone levels, and place
/// the supplied individuals on their (pairwise distinct, in-bounds) start
/// tiles, re-deriving slot indices from vector order.
fn place_individuals(world: &mut World, indivs: Vec<Individual>)
    requires
        old(world).grid.wf(),
        forall|i: int|
            0 <= i < indivs@.len() ==> (#[trigger] indivs@[i]).grid_index < old(world).grid.tiles@.len(),
        forall|i: int, j: int|
            0 <= i < j < indivs@.len() ==> (#[trigger] indivs@[i]).grid_index != (
            #[trigger] indivs@[j]).grid_index,
    ensures
        final(world).wf(),
        final(world).grid.size == old(world).grid.size,
        final(world).grid.tiles@.len() == old(world).grid.tiles@.len(),
        final(world).individuals@.len() == indivs@.len(),
        forall|i: int|
            0 <= i < indivs@.len() ==> {
                &&& (#[trigger] final(world).individuals@[i]).index == i
                &&& final(world).individuals@[i].grid_index == indivs@[i].grid_index
                &&& final(world).individuals@[i].genome == indivs@[i].genome
                &&& final(world).individuals@[i].forward == indivs@[i].forward
            },
        forall|t: int|
            0 <= t < old(world).grid.tiles@.len() ==> (#[trigger] final(world).grid.tiles@[t]).pheromone_level == old(world).grid.tiles@[t].pheromone_level,
{
    let n_tiles = world.grid.tiles.len();
    let mut t: usize = 0;
    while t < n_tiles
        invariant
            t <= n_tiles,
            world.grid.tiles@.len() == n_tiles,
            world.grid.wf(),
            world.grid.size == old(world).grid.size,
            n_tiles == old(world).grid.tiles@.len(),
            forall|k: int|
                0 <= k < t ==> (#[trigger] world.grid.tiles@[k]) == (GridTile {
                    individual_index: None,
                    pheromone_level: old(world).grid.tiles@[k].pheromone_level,
                }),
            forall|k: int|
                t <= k < n_tiles ==> (#[trigger] world.grid.tiles@[k]) == old(world).grid.tiles@[k],
        decreases n_tiles - t,
    {
        let tile = world.grid.tiles[t];
        world.grid.tiles.set(
            t,
            GridTile { individual_index: None, pheromone_level: tile.pheromone_level },
        );
        t = t + 1;
    }
    world.individuals = indivs;
    let n = world.individuals.len();
    let mut i: usize = 0;
    while i < n
        invariant
            i <= n,
            n == world.individuals@.len(),
            n == indivs@.len(),
            world.grid.wf(),
            world.grid.size == old(world).grid.size,
            world.grid.tiles@.len() == n_tiles,
            n_tiles == old(world).grid.tiles@.len(),
            forall|k: int|
                0 <= k < n ==> {
                    &&& (#[trigger] world.individuals@[k]).grid_index == indivs@[k].grid_index
                    &&& world.individuals@[k].grid_index < n_tiles
                    &&& world.individuals@[k].genome == indivs@[k].genome
                    &&& world.individuals@[k].forward == indivs@[k].forward
                },
            forall|k: int| 0 <= k < i ==> (#[trigger] world.individuals@[k]).index == k,
            forall|k: int|
                i <= k < n ==> (#[trigger] world.individuals@[k]).index == indivs@[k].index,
            forall|a: int, b: int|
                0 <= a < b < n ==> (#[trigger] indivs@[a]).grid_index != (
                #[trigger] indivs@[b]).grid_index,
            forall|k: int|
                0 <= k < i ==> (#[trigger] world.grid.tiles@[world.individuals@[k].grid_index as int]).individual_index
                    == Some(k as usize),
            forall|t2: int|
                0 <= t2 < n_tiles ==> ((#[trigger] world.grid.tiles@[t2]).individual_index
                    matches Some(j) ==> j < i && world.individuals@[j as int].grid_index == t2),
            forall|t2: int|
                0 <= t2 < n_tiles ==> (#[trigger] world.grid.tiles@[t2]).pheromone_level == old(world).grid.tiles@[t2].pheromone_level,
        decreases n - i,
    {
        let g = {
            let ind = individual_at_mut(&mut world.individuals, i);
            ind.index = i;
            ind.grid_index
        };
        let tile = world.grid.tiles[g];
        proof {
            assert forall|a: int|
                0 <= a < i implies (#[trigger] world.individuals@[a]).grid_index != g as int by {
                assert(indivs@[a].grid_index != indivs@[i as int].grid_index);
            }
        }
        world.grid.tiles.set(
            g,
            GridTile { individual_index: Some(i), pheromone_level: tile.pheromone_level },
        );
        i = i + 1;
    }
}

/// The simulation: configuration, world, one brain per individual slot, the
/// generation counters, and the per-generation statistics.
pub struct Simulation {
    pub config: Configuration,
    pub world: World,
    pub brains: Vec<Network>,
    pub generation: usize,
    pub generation_step: usize,
    pub stats: Vec<GenerationStats>,
}

impl Simulation {
    /// The structural invariant every public entry point preserves.
    pub open spec fn wf(self) -> bool {
        &&& self.config.valid()
        &&& self.world.wf()
        &&& self.config.population_size <= self.world.grid.tiles@.len()
        &&& self.brains@.len() == self.config.population_size
        &&& (self.world.individuals@.len() == 0 || self.world.individuals@.len()
            == self.config.population_size)
        &&& forall|b: int|
            0 <= b < self.brains@.len() ==> (#[trigger] self.brains@[b]).wf(
                self.config.sensor_neurons@.len() as int,
            )
        &&& forall|i: int|
            0 <= i < self.world.individuals@.len() ==> (#[trigger] self.world.individuals@[i]).genome@.len()
                <= MAX_GENOME_LENGTH
        &&& self.generation_step <= self.config.generation_steps
        &&& self.stats@.len() == self.generation
    }

    /// Whether a first generation has been seeded.
    pub open spec fn populated(self) -> bool {
        self.world.individuals@.len() == self.config.population_size
    }

    /// Whether every brain is the decoded circuit of its owner's genome.
    pub open spec fn brains_synced(self) -> bool {
        forall|i: int|
            0 <= i < self.world.individuals@.len() ==> brain_matches(
                #[trigger] self.brains@[i],
                self.world.individuals@[i].genome@,
                self.config,
            )
    }

    /// The current generation counter.
    pub fn generation(&self) -> (r: usize)
        ensures
            r == self.generation,
    {
        self.generation
    }

    /// Read-only view of the world.
    pub fn world(&self) -> (r: &World)
        ensures
            *r == self.world,
    {
        &self.world
    }

    /// How many individuals currently live in the world.
    pub fn population_count(&self) -> (r: usize)
        ensures
            r == self.world.individuals@.len(),
    {
        self.world.individuals.len()
    }

    /// The surviving slot indices of the current world under the configured
    /// criterion.
    pub fn surviving_indexes(&self) -> (r: Vec<usize>)
        requires
            self.wf(),
        ensures
            r@ == surviving_indexes_spec(self.world, self.config.criteria),
    {
        sc::surviving_indexes(&self.world, self.config.criteria)
    }

    /// The surviving cells of the grid under the configured criterion,
    /// for visualisation.
    pub fn survive_cells(&self) -> (r: Vec<crate::basic_types::Coord>)
        requires
            self.wf(),
        ensures
            r@ == sc::survive_cells_spec(self.world, self.config.criteria),
    {
        sc::survive_cells(&self.world, self.config.criteria)
    }

    /// The survival rate of the last completed generation, in
    /// ten-thousandths of the population; before any generation completes,
    /// the live rate of the current world. Recorded once per generation at
    /// its boundary, so queries never recompute it.
    pub fn last_survival_rate(&self) -> (r: u32)
        requires
            self.wf(),
        ensures
            self.stats@.len() > 0 ==> r == self.stats@.last().survival_rate,
            self.stats@.len() == 0 ==> r == survival_rate_spec(
                self.world,
                self.config.criteria,
                self.config.population_size as int,
            ),
    {
        if self.stats.len() > 0 {
            self.stats[self.stats.len() - 1].survival_rate
        } else {
            let survivors = sc::surviving_indexes(&self.world, self.config.criteria);
            proof {
                sc::lemma_surviving_prefix_members(
                    self.world,
                    self.config.criteria,
                    self.world.individuals@.len() as int,
                );
                assert(survivors@.len() <= self.world.individuals@.len());
                assert((survivors@.len() * 10000) as int / (self.config.population_size as int)
                    <= 10000) by (nonlinear_arith)
                    requires
                        self.config.population_size >= 1,
                        0 <= survivors@.len() <= self.config.population_size,
                ;
            }
            ((survivors.len() as u128) * 10000 / (self.config.population_size as u128)) as u32
        }
    }
}

/// Whether a brain is exactly the decoded circuit of a genome under a
/// configuration, with well-formed structure.
pub open spec fn brain_matches(net: Network, genome: Seq<Gene>, config: Configuration) -> bool {
    let n = genome.len() as int;
    let s = config.sensor_neurons@.len() as int;
    let h = config.hidden_neurons as int;
    let acts = config.action_neurons@;
    &&& net.sensor_inputs@ == crate::network::decode_conns(genome, n, s, h, acts).0
    &&& net.hidden_connections@ == crate::network::decode_conns(genome, n, s, h, acts).1
    &&& net.neurons@.len() == crate::network::decode_alloc(genome, n, h, acts).0.len()
    &&& forall|i: int|
        0 <= i < net.neurons@.len() ==> (#[trigger] net.neurons@[i]).action
            == crate::network::decode_alloc(genome, n, h, acts).0[i]
    &&& net.action_neuron_map@ == crate::network::decode_alloc(genome, n, h, acts).1
    &&& net.wf(s)
}

/// The generation-boundary step, relationally: the transition re-places an
/// offspring population on the previous generation's pheromone field
/// (survivor selection, cloning and mutation, a fresh collision-free
/// placement), and the step then runs from that intermediate state exactly
/// as a plain step does — one decay tick, admissible evaluations, the
/// serial apply chain.
pub open spec fn transition_step_ok(
    prev_world: World,
    criteria: SurvivalCriteria,
    rate: u32,
    post_brains: Seq<Network>,
    sensors: Seq<crate::basic_types::Sensor>,
    post_world: World,
    pop: int,
) -> bool {
    exists|mid_world: World, mid_brains: Seq<Network>|
        {
            &&& mid_world.wf()
            &&& mid_world.individuals@.len() == pop
            &&& forall|i: int|
                0 <= i < pop ==> offspring_ok(
                    #[trigger] mid_world.individuals@[i],
                    prev_world,
                    criteria,
                    rate,
                )
            &&& mid_world.grid.size == prev_world.grid.size
            &&& mid_world.grid.tiles@.len() == prev_world.grid.tiles@.len()
            &&& forall|t: int|
                0 <= t < prev_world.grid.tiles@.len() ==> (#[trigger] mid_world.grid.tiles@[t]).pheromone_level
                    == prev_world.grid.tiles@[t].pheromone_level
            &&& #[trigger] step_world_ok(
                mid_world,
                mid_brains,
                post_brains,
                sensors,
                post_world,
                pop,
            )
        }
}

/// Builds a [`Simulation`] from defaults, one setting at a time.
pub struct SimulationBuilder {
    sim: Simulation,
}

impl SimulationBuilder {
    /// A builder holds an unseeded simulation with consistent settings on a
    /// fresh, entirely empty grid.
    pub closed spec fn wf(self) -> bool {
        &&& self.sim.config.valid()
        &&& self.sim.world.wf()
        &&& self.sim.world.individuals@.len() == 0
        &&& forall|t: int|
            0 <= t < self.sim.world.grid.tiles@.len() ==> self.sim.world.grid.tiles@[t]
                == GridTile::empty_spec()
        &&& self.sim.brains@.len() == 0
        &&& self.sim.generation == 0
        &&& self.sim.generation_step == 0
        &&& self.sim.stats@.len() == 0
    }

    /// The configuration as set so far.
    pub closed spec fn config_spec(self) -> Configuration {
        self.sim.config
    }

    /// The grid size chosen at construction.
    pub closed spec fn grid_len_spec(self) -> int {
        self.sim.world.grid.tiles@.len() as int
    }

    /// The grid extents chosen at construction.
    pub closed spec fn grid_size_spec(self) -> Coord {
        self.sim.world.grid.size
    }

    /// Start from a fresh world of the given extents and the default
    /// configuration.
    pub fn new(width: usize, height: usize) -> (r: SimulationBuilder)
        requires
            1 <= width <= 0xFFFF_FFFFusize,
            1 <= height <= 0xFFFF_FFFFusize,
            width * height <= usize::MAX,
        ensures
            r.wf(),
            r.config_spec().hidden_neurons == 5,
            r.config_spec().generation_steps == 300,
            r.config_spec().mutation_rate == 0,
            r.config_spec().population_size == 1000,
            r.config_spec().genome_length == 24,
            r.config_spec().criteria == SurvivalCriteria::Border(100u32),
            r.config_spec().sensor_neurons@ == crate::basic_types::all_sensors_spec(),
            r.config_spec().action_neurons@ == crate::basic_types::all_actions_spec(),
            r.grid_len_spec() == width * height,
            r.grid_size_spec() == (Coord { x: width, y: height }),
    {
        SimulationBuilder {
            sim: Simulation {
                config: Configuration::default(),
                world: World::new(crate::basic_types::Coord { x: width, y: height }),
                brains: Vec::new(),
                generation: 0,
                generation_step: 0,
                stats: Vec::new(),
            },
        }
    }

    /// Choose the survival criterion.
    pub fn criteria(self, c: SurvivalCriteria) -> (r: SimulationBuilder)
        requires
            self.wf(),
            c.valid(),
        ensures
            r.wf(),
            r.config_spec() == (Configuration { criteria: c, ..self.config_spec() }),
            r.grid_len_spec() == self.grid_len_spec(),
            r.grid_size_spec() == self.grid_size_spec(),
    {
        let mut b = self;
        b.sim.config.criteria = c;
        b
    }

    /// Choose the population size.
    pub fn population_size(self, pop: usize) -> (r: SimulationBuilder)
        requires
            self.wf(),
            pop >= 1,
        ensures
            r.wf(),
            r.config_spec() == (Configuration { population_size: pop, ..self.config_spec() }),
            r.grid_len_spec() == self.grid_len_spec(),
            r.grid_size_spec() == self.grid_size_spec(),
    {
        let mut b = self;
        b.sim.config.population_size = pop;
        b
    }

    /// Choose the per-gene mutation probability, in ten-thousandths.
    pub fn mutation_rate(self, rate: u32) -> (r: SimulationBuilder)
        requires
            self.wf(),
            rate <= 10000,
        ensures
            r.wf(),
            r.config_spec() == (Configuration { mutation_rate: rate, ..self.config_spec() }),
            r.grid_len_spec() == self.grid_len_spec(),
            r.grid_size_spec() == self.grid_size_spec(),
    {
        let mut b = self;
        b.sim.config.mutation_rate = rate;
        b
    }

    /// Choose how many steps one generation runs.
    pub fn generation_steps(self, steps: usize) -> (r: SimulationBuilder)
        requires
            self.wf(),
            steps >= 1,
        ensures
            r.wf(),
            r.config_spec() == (Configuration { generation_steps: steps, ..self.config_spec() }),
            r.grid_len_spec() == self.grid_len_spec(),
            r.grid_size_spec() == self.grid_size_spec(),
    {
        let mut b = self;
        b.sim.config.generation_steps = steps;
        b
    }

    /// Choose the genome length of generated individuals.
    pub fn genome_length(self, len: usize) -> (r: SimulationBuilder)
        requires
            self.wf(),
            len <= MAX_GENOME_LENGTH,
        ensures
            r.wf(),
            r.config_spec() == (Configuration { genome_length: len, ..self.config_spec() }),
            r.grid_len_spec() == self.grid_len_spec(),
            r.grid_size_spec() == self.grid_size_spec(),
    {
        let mut b = self;
        b.sim.config.genome_length = len;
        b
    }

    /// Choose the enabled action set.
    pub fn action_neurons(self, an: Vec<crate::basic_types::Action>) -> (r: SimulationBuilder)
        requires
            self.wf(),
            self.config_spec().hidden_neurons + an@.len() >= 1,
            self.config_spec().hidden_neurons + an@.len() <= usize::MAX,
        ensures
            r.wf(),
            r.config_spec() == (Configuration { action_neurons: an, ..self.config_spec() }),
            r.grid_len_spec() == self.grid_len_spec(),
            r.grid_size_spec() == self.grid_size_spec(),
    {
        let mut b = self;
        b.sim.config.action_neurons = an;
        b
    }

    /// Choose the hidden-neuron count.
    pub fn hidden_neurons(self, hn: usize) -> (r: SimulationBuilder)
        requires
            self.wf(),
            self.config_spec().sensor_neurons@.len() + hn >= 1,
            self.config_spec().sensor_neurons@.len() + hn <= usize::MAX,
            hn + self.config_spec().action_neurons@.len() >= 1,
            hn + self.config_spec().action_neurons@.len() <= usize::MAX,
        ensures
            r.wf(),
            r.config_spec() == (Configuration { hidden_neurons: hn, ..self.config_spec() }),
            r.grid_len_spec() == self.grid_len_spec(),
            r.grid_size_spec() == self.grid_size_spec(),
    {
        let mut b = self;
        b.sim.config.hidden_neurons = hn;
        b
    }

    /// Choose the enabled sensor set.
    pub fn sensor_neurons(self, sn: Vec<crate::basic_types::Sensor>) -> (r: SimulationBuilder)
        requires
            self.wf(),
            sn@.len() + self.config_spec().hidden_neurons >= 1,
            sn@.len() + self.config_spec().hidden_neurons <= usize::MAX,
        ensures
            r.wf(),
            r.config_spec() == (Configuration { sensor_neurons: sn, ..self.config_spec() }),
            r.grid_len_spec() == self.grid_len_spec(),
            r.grid_size_spec() == self.grid_size_spec(),
    {
        let mut b = self;
        b.sim.config.sensor_neurons = sn;
        b
    }

    /// Finish: allot one (empty) brain per individual slot. The population
    /// must fit on the grid.
    pub fn build(self) -> (r: Simulation)
        requires
            self.wf(),
            self.config_spec().population_size <= self.grid_len_spec(),
        ensures
            r.wf(),
            !r.populated(),
            r.config == self.config_spec(),
            r.generation == 0,
            r.generation_step == 0,
            r.world.individuals@.len() == 0,
            r.world.grid.tiles@.len() == self.grid_len_spec(),
            r.world.grid.size == self.grid_size_spec(),
            forall|t: int|
                0 <= t < r.world.grid.tiles@.len() ==> r.world.grid.tiles@[t]
                    == GridTile::empty_spec(),
            r.brains@.len() == r.config.population_size,
            forall|k: int|
                0 <= k < r.brains@.len() ==> {
                    &&& (#[trigger] r.brains@[k]).sensor_inputs@.len() == 0
                    &&& r.brains@[k].hidden_connections@.len() == 0
                    &&& r.brains@[k].neurons@.len() == 0
                    &&& r.brains@[k].action_neuron_map@.len() == 0
                },
    {
        let mut b = self;
        let pop = b.sim.config.population_size;
        let mut i: usize = 0;
        while i < pop
            invariant
                i <= pop,
                b.sim.brains@.len() == i,
                b.sim.config == self.config_spec(),
                b.sim.world == self.sim.world,
                b.sim.generation == 0,
                b.sim.generation_step == 0,
                b.sim.stats@.len() == 0,
                forall|k: int|
                    0 <= k < i ==> forall|s2: int| (#[trigger] b.sim.brains@[k]).wf(s2),
                forall|k: int|
                    0 <= k < i ==> {
                        &&& (#[trigger] b.sim.brains@[k]).sensor_inputs@.len() == 0
                        &&& b.sim.brains@[k].hidden_connections@.len() == 0
                        &&& b.sim.brains@[k].neurons@.len() == 0
                        &&& b.sim.brains@[k].action_neuron_map@.len() == 0
                    },
            decreases pop - i,
        {
            b.sim.brains.push(Network::empty());
            i = i + 1;
        }
        b.sim
    }
}

impl Simulation {
    /// Rebuild every brain from its owner's genome and scatter the supplied
    /// individuals over the grid on a fresh, collision-free random
    /// placement; pheromone levels are untouched.
    fn setup_individuals(&mut self, indivs: Vec<Individual>)
        requires
            old(self).config.valid(),
            old(self).world.grid.wf(),
            old(self).brains@.len() == old(self).config.population_size,
            old(self).config.population_size <= old(self).world.grid.tiles@.len(),
            old(self).generation_step <= old(self).config.generation_steps,
            old(self).stats@.len() == old(self).generation,
            indivs@.len() == old(self).config.population_size,
            forall|i: int|
                0 <= i < indivs@.len() ==> (#[trigger] indivs@[i]).genome@.len()
                    <= MAX_GENOME_LENGTH,
        ensures
            final(self).wf(),
            final(self).populated(),
            final(self).brains_synced(),
            final(self).config == old(self).config,
            final(self).generation == old(self).generation,
            final(self).generation_step == old(self).generation_step,
            final(self).stats@ == old(self).stats@,
            final(self).world.grid.size == old(self).world.grid.size,
            final(self).world.grid.tiles@.len() == old(self).world.grid.tiles@.len(),
            final(self).world.individuals@.len() == indivs@.len(),
            forall|i: int|
                0 <= i < indivs@.len() ==> {
                    &&& (#[trigger] final(self).world.individuals@[i]).genome == indivs@[i].genome
                    &&& final(self).world.individuals@[i].index == i
                    &&& final(self).world.individuals@[i].forward == indivs@[i].forward
                },
            forall|t: int|
                0 <= t < old(self).world.grid.tiles@.len() ==> (#[trigger] final(
                    self).world.grid.tiles@[t]).pheromone_level == old(
                    self).world.grid.tiles@[t].pheromone_level,
    {
        let mut indivs = indivs;
        let n_tiles = self.world.grid.tiles.len();
        set_individual_grid_index_random(n_tiles, &mut indivs);
        place_individuals(&mut self.world, indivs);
        let ghost placed_world = self.world;
        let pop = self.config.population_size;
        let mut i: usize = 0;
        while i < pop
            invariant
                i <= pop,
                self.config == old(self).config,
                self.config.valid(),
                pop == self.config.population_size,
                self.brains@.len() == pop,
                self.world.individuals@.len() == pop,
                forall|k: int|
                    0 <= k < pop ==> (#[trigger] self.world.individuals@[k]).genome@.len()
                        <= MAX_GENOME_LENGTH,
                forall|k: int|
                    0 <= k < i ==> brain_matches(
                        #[trigger] self.brains@[k],
                        self.world.individuals@[k].genome@,
                        self.config,
                    ),
                self.world == placed_world,
                self.world.wf(),
                self.world.grid.size == old(self).world.grid.size,
                self.world.grid.tiles@.len() == old(self).world.grid.tiles@.len(),
                self.generation == old(self).generation,
                self.generation_step == old(self).generation_step,
                self.stats@ == old(self).stats@,
            decreases pop - i,
        {
            let brain = brain_at_mut(&mut self.brains, i);
            brain.initialize_from_genome(&self.world.individuals[i].genome, &self.config);
            i = i + 1;
        }
        proof {
            assert forall|b: int| 0 <= b < self.brains@.len() implies (
            #[trigger] self.brains@[b]).wf(self.config.sensor_neurons@.len() as int) by {
                assert(brain_matches(
                    self.brains@[b],
                    self.world.individuals@[b].genome@,
                    self.config,
                ));
            }
        }
    }

    /// Seed generation zero: each slot takes the supplied genome, or a
    /// fresh uniformly random one, on a random tile facing a random way.
    pub fn initialize_first_generation(&mut self, initial_genomes: Option<Vec<Genome>>)
        requires
            old(self).wf(),
            initial_genomes matches Some(gs) ==> gs@.len() == old(self).config.population_size
                && forall|i: int|
                0 <= i < gs@.len() ==> (#[trigger] gs@[i])@.len() <= MAX_GENOME_LENGTH,
        ensures
            final(self).wf(),
            final(self).populated(),
            final(self).brains_synced(),
            final(self).config == old(self).config,
            final(self).generation == old(self).generation,
            final(self).generation_step == old(self).generation_step,
            final(self).stats@ == old(self).stats@,
            final(self).world.grid.size == old(self).world.grid.size,
            final(self).world.grid.tiles@.len() == old(self).world.grid.tiles@.len(),
            forall|t: int|
                0 <= t < old(self).world.grid.tiles@.len() ==> (#[trigger] final(
                    self).world.grid.tiles@[t]).pheromone_level == old(
                    self).world.grid.tiles@[t].pheromone_level,
            initial_genomes matches Some(gs) ==> forall|i: int|
                0 <= i < gs@.len() ==> (#[trigger] final(self).world.individuals@[i]).genome@
                    == gs@[i]@,
            initial_genomes is None ==> forall|i: int|
                0 <= i < final(self).world.individuals@.len() ==> (#[trigger] final(
                    self).world.individuals@[i]).genome@.len() == old(self).config.genome_length,
    {
        let pop = self.config.population_size;
        let mut indivs: Vec<Individual> = Vec::new();
        match initial_genomes {
            Some(gs) => {
                let mut i: usize = 0;
                while i < pop
                    invariant
                        i <= pop,
                        pop == gs@.len(),
                        indivs@.len() == i,
                        forall|k: int|
                            0 <= k < gs@.len() ==> (#[trigger] gs@[k])@.len()
                                <= MAX_GENOME_LENGTH,
                        forall|k: int|
                            0 <= k < i ==> (#[trigger] indivs@[k]).genome@ == gs@[k]@,
                        forall|k: int|
                            0 <= k < i ==> (#[trigger] indivs@[k]).genome@.len()
                                <= MAX_GENOME_LENGTH,
                    decreases pop - i,
                {
                    let mut ind = Individual::new();
                    ind.genome = copy_genome(&gs[i]);
                    ind.index = i;
                    indivs.push(ind);
                    i = i + 1;
                }
                self.setup_individuals(indivs);
            },
            None => {
                let glen = self.config.genome_length;
                let mut i: usize = 0;
                while i < pop
                    invariant
                        i <= pop,
                        glen == self.config.genome_length,
                        glen <= MAX_GENOME_LENGTH,
                        indivs@.len() == i,
                        forall|k: int|
                            0 <= k < i ==> (#[trigger] indivs@[k]).genome@.len() == glen,
                    decreases pop - i,
                {
                    let mut ind = Individual::new();
                    ind.genome = gene_functions::random_genome(glen);
                    ind.index = i;
                    indivs.push(ind);
                    i = i + 1;
                }
                self.setup_individuals(indivs);
            },
        }
    }

    /// Re-scatter the current population and rebuild its brains, restarting
    /// the current generation's step counter.
    pub fn reset_generation(&mut self)
        requires
            old(self).wf(),
            old(self).populated(),
        ensures
            final(self).wf(),
            final(self).populated(),
            final(self).brains_synced(),
            final(self).config == old(self).config,
            final(self).generation == old(self).generation,
            final(self).generation_step == 0,
            final(self).stats@ == old(self).stats@,
            final(self).world.grid.size == old(self).world.grid.size,
            final(self).world.grid.tiles@.len() == old(self).world.grid.tiles@.len(),
            forall|t: int|
                0 <= t < old(self).world.grid.tiles@.len() ==> (#[trigger] final(
                    self).world.grid.tiles@[t]).pheromone_level == old(
                    self).world.grid.tiles@[t].pheromone_level,
            forall|i: int|
                0 <= i < old(self).world.individuals@.len() ==> (#[trigger] final(
                    self).world.individuals@[i]).genome == old(self).world.individuals@[i].genome,
    {
        self.generation_step = 0;
        let mut indivs: Vec<Individual> = Vec::new();
        core::mem::swap(&mut indivs, &mut self.world.individuals);
        proof {
            assert forall|t: int|
                0 <= t < self.world.grid.tiles@.len() implies ((#[trigger] self.world.grid.tiles@[
            t]).individual_index matches Some(j) ==> j < indivs@.len()
                && indivs@[j as int].grid_index == t) by {}
        }
        self.setup_individuals(indivs);
    }
}

/// Whether two circuits share structure: same connections, same action
/// wiring, possibly different neuron signal values.
pub open spec fn same_structure(a: Network, b: Network) -> bool {
    &&& a.sensor_inputs@ == b.sensor_inputs@
    &&& a.hidden_connections@ == b.hidden_connections@
    &&& a.action_neuron_map@ == b.action_neuron_map@
    &&& a.neurons@.len() == b.neurons@.len()
    &&& forall|i: int|
        0 <= i < a.neurons@.len() ==> (#[trigger] a.neurons@[i]).action == b.neurons@[i].action
}

/// Whether every activation of a list belongs to the given slot.
pub open spec fn acts_owned_by(acts: Seq<Activation>, owner: int) -> bool {
    forall|j: int| 0 <= j < acts.len() ==> (#[trigger] acts[j]).indiv_index == owner
}

impl Simulation {
    /// The generation boundary: compute the survivors under the configured
    /// criterion; if none survive, fail with [`SimError::NoSurvivors`] and
    /// change nothing. Otherwise record the survival rate, synthesize a
    /// full population of offspring (each a mutated clone of a uniformly
    /// random survivor's genome), rebuild every brain, scatter the new
    /// individuals, and advance the generation counter. Pheromones persist
    /// across the boundary.
    fn advance_generation(&mut self) -> (r: Result<(), SimError>)
        requires
            old(self).wf(),
            old(self).populated(),
            old(self).generation < usize::MAX,
        ensures
            (r is Ok) <==> surviving_indexes_spec(old(self).world, old(self).config.criteria).len()
                > 0,
            r is Err ==> *final(self) == *old(self) && r == Err::<(), SimError>(
                SimError::NoSurvivors,
            ),
            r is Ok ==> {
                &&& final(self).wf()
                &&& final(self).populated()
                &&& final(self).brains_synced()
                &&& final(self).config == old(self).config
                &&& final(self).generation == old(self).generation + 1
                &&& final(self).generation_step == 0
                &&& final(self).stats@.len() == old(self).stats@.len() + 1
                &&& final(self).stats@.last().survival_rate == survival_rate_spec(
                    old(self).world,
                    old(self).config.criteria,
                    old(self).config.population_size as int,
                )
                &&& forall|j: int| 0 <= j < old(self).stats@.len() ==> final(self).stats@[j] == old(self).stats@[j]
                &&& forall|i: int|
                    0 <= i < final(self).world.individuals@.len() ==> offspring_ok(
                        #[trigger] final(self).world.individuals@[i],
                        old(self).world,
                        old(self).config.criteria,
                        old(self).config.mutation_rate,
                    )
                &&& final(self).world.grid.size == old(self).world.grid.size
                &&& final(self).world.grid.tiles@.len() == old(self).world.grid.tiles@.len()
                &&& forall|t: int|
                    0 <= t < old(self).world.grid.tiles@.len() ==> (#[trigger] final(self).world.grid.tiles@[t]).pheromone_level == old(self).world.grid.tiles@[t].pheromone_level
            },
    {
        let ghost w0 = self.world;
        let survivors = sc::surviving_indexes(&self.world, self.config.criteria);
        proof {
            sc::lemma_surviving_prefix_members(
                self.world,
                self.config.criteria,
                self.world.individuals@.len() as int,
            );
        }
        if survivors.len() == 0 {
            return Err(SimError::NoSurvivors);
        }
        let pop = self.config.population_size;
        proof {
            assert((survivors@.len() * 10000) as int / (pop as int) <= 10000) by (nonlinear_arith)
                requires
                    pop >= 1,
                    0 <= survivors@.len() <= pop,
            ;
        }
        let rate = ((survivors.len() as u128) * 10000 / (pop as u128)) as u32;
        let mut new_indivs: Vec<Individual> = Vec::new();
        let mut i: usize = 0;
        while i < pop
            invariant
                i <= pop,
                self.world == w0,
                w0 == old(self).world,
                self.config == old(self).config,
                self.brains@ == old(self).brains@,
                self.generation == old(self).generation,
                self.generation_step == old(self).generation_step,
                self.stats@ == old(self).stats@,
                old(self).wf(),
                old(self).populated(),
                pop == self.config.population_size,
                survivors@ == surviving_indexes_spec(w0, self.config.criteria),
                survivors@.len() >= 1,
                forall|j: int|
                    0 <= j < survivors@.len() ==> {
                        &&& (#[trigger] survivors@[j]) < w0.individuals@.len()
                        &&& match_criteria_spec(
                            w0,
                            self.config.criteria,
                            w0.individuals@[survivors@[j] as int].grid_index as int,
                        )
                    },
                new_indivs@.len() == i,
                forall|k: int|
                    0 <= k < i ==> offspring_ok(
                        #[trigger] new_indivs@[k],
                        w0,
                        self.config.criteria,
                        self.config.mutation_rate,
                    ),
                forall|k: int|
                    0 <= k < i ==> (#[trigger] new_indivs@[k]).genome@.len() <= MAX_GENOME_LENGTH,
            decreases pop - i,
        {
            let pick = randomness::random_below(survivors.len());
            let s = survivors[pick];
            let mut genome = copy_genome(&self.world.individuals[s].genome);
            gene_functions::mutate_genome(self.config.mutation_rate, &mut genome);
            let mut ind = Individual::new();
            ind.genome = genome;
            ind.index = i;
            proof {
                assert(mutated_from(
                    ind.genome@,
                    w0.individuals@[s as int].genome@,
                    self.config.mutation_rate,
                ));
                assert(0 <= (s as int) && (s as int) < w0.individuals@.len() && match_criteria_spec(
                    w0,
                    self.config.criteria,
                    (w0.individuals@[s as int]).grid_index as int,
                ) && mutated_from(
                    ind.genome@,
                    w0.individuals@[s as int].genome@,
                    self.config.mutation_rate,
                ));
                assert(offspring_ok(ind, w0, self.config.criteria, self.config.mutation_rate));
            }
            new_indivs.push(ind);
            i = i + 1;
        }
        self.setup_individuals(new_indivs);
        self.generation = self.generation + 1;
        self.generation_step = 0;
        self.stats.push(GenerationStats { survival_rate: rate });
        proof {
            assert forall|i2: int|
                0 <= i2 < self.world.individuals@.len() implies offspring_ok(
                #[trigger] self.world.individuals@[i2],
                w0,
                old(self).config.criteria,
                old(self).config.mutation_rate,
            ) by {
                assert(self.world.individuals@[i2].genome == new_indivs@[i2].genome);
                assert(offspring_ok(
                    new_indivs@[i2],
                    w0,
                    old(self).config.criteria,
                    old(self).config.mutation_rate,
                ));
                let s = choose|s: int|
                    0 <= s < w0.individuals@.len() && match_criteria_spec(
                        w0,
                        old(self).config.criteria,
                        (#[trigger] w0.individuals@[s]).grid_index as int,
                    ) && mutated_from(
                        new_indivs@[i2].genome@,
                        w0.individuals@[s].genome@,
                        old(self).config.mutation_rate,
                    );
                assert(mutated_from(
                    self.world.individuals@[i2].genome@,
                    w0.individuals@[s].genome@,
                    old(self).config.mutation_rate,
                ));
            }
        }
        Ok(())
    }

    /// Advance one step. Returns `Ok(true)` exactly when this call
    /// completed the current generation; the next call then performs the
    /// generation transition before stepping.
    ///
    /// A step runs in fixed order: the transition if one is due, one
    /// pheromone decay tick, the read-only evaluation of every brain, and
    /// the serial application of all collected activations in slot order.
    /// Fails only with [`SimError::NoSurvivors`], at a boundary where no
    /// individual meets the criterion, leaving the simulation unchanged.
    pub fn step_single_thread(&mut self) -> (r: Result<bool, SimError>)
        requires
            old(self).wf(),
            old(self).populated(),
            old(self).generation < usize::MAX,
        ensures
            (r is Err) <==> (old(self).generation_step >= old(self).config.generation_steps
                && surviving_indexes_spec(old(self).world, old(self).config.criteria).len() == 0),
            r is Err ==> *final(self) == *old(self) && r == Err::<bool, SimError>(
                SimError::NoSurvivors,
            ),
            r matches Ok(b) ==> {
                &&& final(self).wf()
                &&& final(self).populated()
                &&& final(self).config == old(self).config
                &&& final(self).world.grid.size == old(self).world.grid.size
                &&& final(self).world.grid.tiles@.len() == old(self).world.grid.tiles@.len()
                &&& b == (final(self).generation_step >= final(self).config.generation_steps)
                &&& (old(self).brains_synced() ==> final(self).brains_synced())
                &&& if old(self).generation_step < old(self).config.generation_steps {
                    &&& final(self).generation == old(self).generation
                    &&& final(self).generation_step == old(self).generation_step + 1
                    &&& final(self).stats@ == old(self).stats@
                    &&& step_world_ok(
                        old(self).world,
                        old(self).brains@,
                        final(self).brains@,
                        old(self).config.sensor_neurons@,
                        final(self).world,
                        old(self).config.population_size as int,
                    )
                    &&& final(self).world.individuals@.len() == old(self).world.individuals@.len()
                    &&& forall|i: int|
                        0 <= i < old(self).world.individuals@.len() ==> {
                            &&& (#[trigger] final(self).world.individuals@[i]).genome == old(self).world.individuals@[i].genome
                            &&& final(self).world.individuals@[i].index == i
                            &&& final(self).world.individuals@[i].forward == old(self).world.individuals@[i].forward
                        }
                } else {
                    &&& final(self).generation == old(self).generation + 1
                    &&& final(self).generation_step == 1
                    &&& final(self).stats@.len() == old(self).stats@.len() + 1
                    &&& final(self).stats@.last().survival_rate == survival_rate_spec(
                        old(self).world,
                        old(self).config.criteria,
                        old(self).config.population_size as int,
                    )
                    &&& forall|i: int|
                        0 <= i < final(self).world.individuals@.len() ==> offspring_ok(
                            #[trigger] final(self).world.individuals@[i],
                            old(self).world,
                            old(self).config.criteria,
                            old(self).config.mutation_rate,
                        )
                    &&& transition_step_ok(
                        old(self).world,
                        old(self).config.criteria,
                        old(self).config.mutation_rate,
                        final(self).brains@,
                        old(self).config.sensor_neurons@,
                        final(self).world,
                        old(self).config.population_size as int,
                    )
                }
            },
    {
        let ghost transitioned = self.generation_step >= self.config.generation_steps;
        if self.generation_step >= self.config.generation_steps {
            match self.advance_generation() {
                Ok(()) => {},
                Err(e) => {
                    return Err(e);
                },
            }
        }
        let ghost pre = *self;
        self.world.grid.decay_pheromones();
        proof {
            assert(self.world.wf());
        }
        let ghost w0 = self.world;
        let ghost brains0 = self.brains@;
        let n = self.config.population_size;
        let mut all_acts: Vec<Vec<Activation>> = Vec::new();
        let mut i: usize = 0;
        while i < n
            invariant
                i <= n,
                n == self.config.population_size,
                self.config == pre.config,
                self.config.valid(),
                self.world == w0,
                w0.wf(),
                w0.individuals@.len() == n,
                self.brains@.len() == n,
                brains0.len() == n,
                forall|k: int|
                    0 <= k < n ==> (#[trigger] self.brains@[k]).wf(
                        self.config.sensor_neurons@.len() as int,
                    ),
                forall|k: int|
                    0 <= k < n ==> same_structure(#[trigger] self.brains@[k], brains0[k]),
                self.generation == pre.generation,
                self.generation_step == pre.generation_step,
                self.stats@ == pre.stats@,
                all_acts@.len() == i,
                forall|k: int| 0 <= k < i ==> acts_owned_by((#[trigger] all_acts@[k])@, k),
                forall|k: int|
                    0 <= k < i ==> eval_acts_ok(
                        (#[trigger] all_acts@[k])@,
                        brains0[k],
                        self.brains@[k],
                        self.config.sensor_neurons@,
                        w0,
                        w0.individuals@[k],
                    ),
            decreases n - i,
        {
            proof {
                assert(self.world.individuals@[i as int].index == i);
            }
            let acts = {
                let brain = brain_at_mut(&mut self.brains, i);
                brain.run(&self.config.sensor_neurons, &self.world, &self.world.individuals[i])
            };
            proof {
                crate::network::lemma_collect_activations_members(
                    self.brains@[i as int].neurons@,
                    i as int,
                    brains0[i as int].neurons@.len() as int,
                );
                assert(eval_acts_ok(
                    acts@,
                    brains0[i as int],
                    self.brains@[i as int],
                    self.config.sensor_neurons@,
                    w0,
                    w0.individuals@[i as int],
                ));
            }
            all_acts.push(acts);
            i = i + 1;
        }
        let ghost allv: Seq<Seq<Activation>> = Seq::new(n as nat, |k: int| all_acts@[k]@);
        proof {
            assert(flat_acts(allv, 0) =~= Seq::<Activation>::empty());
            assert(apply_seq(w0, flat_acts(allv, 0), self.world));
        }
        let mut i2: usize = 0;
        while i2 < n
            invariant
                i2 <= n,
                n == self.config.population_size,
                self.config == pre.config,
                self.config.valid(),
                self.world.wf(),
                self.world.grid.size == w0.grid.size,
                self.world.grid.tiles@.len() == w0.grid.tiles@.len(),
                self.world.individuals@.len() == n,
                forall|k: int|
                    0 <= k < n ==> {
                        &&& (#[trigger] self.world.individuals@[k]).genome
                            == w0.individuals@[k].genome
                        &&& self.world.individuals@[k].index == k
                        &&& self.world.individuals@[k].forward == w0.individuals@[k].forward
                    },
                self.brains@.len() == n,
                forall|k: int|
                    0 <= k < n ==> (#[trigger] self.brains@[k]).wf(
                        self.config.sensor_neurons@.len() as int,
                    ),
                forall|k: int|
                    0 <= k < n ==> same_structure(#[trigger] self.brains@[k], brains0[k]),
                self.generation == pre.generation,
                self.generation_step == pre.generation_step,
                self.stats@ == pre.stats@,
                all_acts@.len() == n,
                forall|k: int| 0 <= k < n ==> acts_owned_by((#[trigger] all_acts@[k])@, k),
                allv.len() == n,
                forall|k: int| 0 <= k < n ==> #[trigger] allv[k] == all_acts@[k]@,
                forall|k: int|
                    0 <= k < n ==> eval_acts_ok(
                        #[trigger] allv[k],
                        brains0[k],
                        self.brains@[k],
                        self.config.sensor_neurons@,
                        w0,
                        w0.individuals@[k],
                    ),
                apply_seq(w0, flat_acts(allv, i2 as int), self.world),
            decreases n - i2,
        {
            let m = all_acts[i2].len();
            proof {
                assert(allv[i2 as int].take(0) =~= Seq::<Activation>::empty());
                assert(flat_acts(allv, i2 as int) + allv[i2 as int].take(0) =~= flat_acts(
                    allv,
                    i2 as int,
                ));
            }
            let mut j: usize = 0;
            while j < m
                invariant
                    j <= m,
                    i2 < n,
                    m == all_acts@[i2 as int]@.len(),
                    n == self.config.population_size,
                    self.config == pre.config,
                    self.config.valid(),
                    self.world.wf(),
                    self.world.grid.size == w0.grid.size,
                    self.world.grid.tiles@.len() == w0.grid.tiles@.len(),
                    self.world.individuals@.len() == n,
                    forall|k: int|
                        0 <= k < n ==> {
                            &&& (#[trigger] self.world.individuals@[k]).genome
                                == w0.individuals@[k].genome
                            &&& self.world.individuals@[k].index == k
                            &&& self.world.individuals@[k].forward == w0.individuals@[k].forward
                        },
                    self.brains@.len() == n,
                    forall|k: int|
                        0 <= k < n ==> (#[trigger] self.brains@[k]).wf(
                            self.config.sensor_neurons@.len() as int,
                        ),
                    forall|k: int|
                        0 <= k < n ==> same_structure(#[trigger] self.brains@[k], brains0[k]),
                    self.generation == pre.generation,
                    self.generation_step == pre.generation_step,
                    self.stats@ == pre.stats@,
                    all_acts@.len() == n,
                    forall|k: int| 0 <= k < n ==> acts_owned_by((#[trigger] all_acts@[k])@, k),
                    allv.len() == n,
                    forall|k: int| 0 <= k < n ==> #[trigger] allv[k] == all_acts@[k]@,
                    forall|k: int|
                        0 <= k < n ==> eval_acts_ok(
                            #[trigger] allv[k],
                            brains0[k],
                            self.brains@[k],
                            self.config.sensor_neurons@,
                            w0,
                            w0.individuals@[k],
                        ),
                    apply_seq(
                        w0,
                        flat_acts(allv, i2 as int) + allv[i2 as int].take(j as int),
                        self.world,
                    ),
                decreases m - j,
            {
                let act = all_acts[i2][j];
                proof {
                    assert(act.indiv_index == i2);
                }
                let ghost wpre = self.world;
                let ghost done = flat_acts(allv, i2 as int) + allv[i2 as int].take(j as int);
                action_neurons::perform_action(&act, &mut self.world);
                proof {
                    lemma_apply_seq_snoc(w0, done, wpre, act, self.world);
                    assert(done.push(act) =~= flat_acts(allv, i2 as int) + allv[i2 as int].take(
                        j + 1,
                    ));
                }
                j = j + 1;
            }
            proof {
                assert(allv[i2 as int].take(m as int) =~= allv[i2 as int]);
                assert(flat_acts(allv, i2 as int) + allv[i2 as int] =~= flat_acts(
                    allv,
                    i2 as int + 1,
                ));
            }
            i2 = i2 + 1;
        }
        self.generation_step = self.generation_step + 1;
        proof {
            assert(decay_rel(pre.world, w0));
            assert(apply_seq(w0, flat_acts(allv, n as int), self.world));
            assert(brains0 == pre.brains@);
            assert(step_world_ok(
                pre.world,
                pre.brains@,
                self.brains@,
                old(self).config.sensor_neurons@,
                self.world,
                old(self).config.population_size as int,
            ));
            if !transitioned {
                assert(pre == *old(self));
            } else {
                assert(transition_step_ok(
                    old(self).world,
                    old(self).config.criteria,
                    old(self).config.mutation_rate,
                    self.brains@,
                    old(self).config.sensor_neurons@,
                    self.world,
                    old(self).config.population_size as int,
                ));
            }
            if pre.brains_synced() {
                assert forall|k: int| 0 <= k < self.world.individuals@.len() implies brain_matches(
                    #[trigger] self.brains@[k],
                    self.world.individuals@[k].genome@,
                    self.config,
                ) by {
                    assert(brain_matches(brains0[k], w0.individuals@[k].genome@, pre.config));
                    assert(same_structure(self.brains@[k], brains0[k]));
                    assert(self.world.individuals@[k].genome == w0.individuals@[k].genome);
                }
            }
        }
        Ok(self.generation_step >= self.config.generation_steps)
    }

    /// Step until the generation counter advances, performing the boundary
    /// transition of the previous generation first if one is still due.
    /// Fails only with [`SimError::NoSurvivors`].
    pub fn run_generation(&mut self) -> (r: Result<(), SimError>)
        requires
            old(self).wf(),
            old(self).populated(),
            old(self).generation < usize::MAX - 1,
        ensures
            r is Ok ==> {
                &&& final(self).wf()
                &&& final(self).populated()
                &&& final(self).config == old(self).config
                &&& final(self).generation == old(self).generation + 1
            },
            r is Err ==> {
                &&& r == Err::<(), SimError>(SimError::NoSurvivors)
                &&& final(self).wf()
                &&& final(self).populated()
                &&& final(self).config == old(self).config
                &&& final(self).generation == old(self).generation
                &&& surviving_indexes_spec(final(self).world, final(self).config.criteria).len()
                    == 0
            },
    {
        let gen = self.generation;
        loop
            invariant
                self.wf(),
                self.populated(),
                self.config == old(self).config,
                gen == old(self).generation,
                gen < usize::MAX - 1,
                self.generation == gen || self.generation == gen + 1,
            ensures
                self.wf(),
                self.populated(),
                self.config == old(self).config,
                self.generation == gen + 1,
            decreases (if self.generation != gen {
                0int
            } else {
                self.config.generation_steps + 1 - self.generation_step
            }),
        {
            if self.generation != gen {
                break ;
            }
            match self.step_single_thread() {
                Ok(_) => {},
                Err(e) => {
                    return Err(e);
                },
            }
        }
        Ok(())
    }
}

/// One pheromone decay tick: occupancy and individuals unchanged, every
/// tile's level down one, flooring at zero.
pub open spec fn decay_rel(pre: World, post: World) -> bool {
    &&& post.individuals@ == pre.individuals@
    &&& post.grid.size == pre.grid.size
    &&& post.grid.tiles@.len() == pre.grid.tiles@.len()
    &&& forall|t: int|
        0 <= t < pre.grid.tiles@.len() ==> (#[trigger] post.grid.tiles@[t]) == (
        crate::grid::GridTile {
            individual_index: pre.grid.tiles@[t].individual_index,
            pheromone_level: crate::grid::dec_level(pre.grid.tiles@[t].pheromone_level, 1),
        })
}

/// The serial apply phase: `post` is what `pre` becomes when the listed
/// activations take effect one after the other, in order.
pub open spec fn apply_seq(pre: World, acts: Seq<Activation>, post: World) -> bool
    decreases acts.len(),
{
    if acts.len() == 0 {
        post == pre
    } else {
        exists|mid: World|
            #[trigger] crate::action_neurons::action_result(pre, acts[0], mid) && apply_seq(
                mid,
                acts.drop_first(),
                post,
            )
    }
}

/// Applying one more activation extends an apply chain.
proof fn lemma_apply_seq_snoc(pre: World, acts: Seq<Activation>, mid: World, a: Activation, post: World)
    requires
        apply_seq(pre, acts, mid),
        crate::action_neurons::action_result(mid, a, post),
    ensures
        apply_seq(pre, acts.push(a), post),
    decreases acts.len(),
{
    if acts.len() == 0 {
        assert(mid == pre);
        assert(acts.push(a)[0] == a);
        assert(acts.push(a).drop_first() =~= Seq::<Activation>::empty());
        assert(crate::action_neurons::action_result(pre, acts.push(a)[0], post));
        assert(apply_seq(post, acts.push(a).drop_first(), post));
    } else {
        let m1 = choose|m1: World|
            #[trigger] crate::action_neurons::action_result(pre, acts[0], m1) && apply_seq(
                m1,
                acts.drop_first(),
                mid,
            );
        lemma_apply_seq_snoc(m1, acts.drop_first(), mid, a, post);
        assert(acts.push(a)[0] == acts[0]);
        assert(acts.push(a).drop_first() =~= acts.drop_first().push(a));
        assert(crate::action_neurons::action_result(pre, acts.push(a)[0], m1) && apply_seq(
            m1,
            acts.push(a).drop_first(),
            post,
        ));
    }
}

/// The first `k` activation lists, flattened in slot order.
pub open spec fn flat_acts(all: Seq<Seq<Activation>>, k: int) -> Seq<Activation>
    decreases k,
{
    if k <= 0 {
        Seq::empty()
    } else {
        flat_acts(all, k - 1) + all[k - 1]
    }
}

/// What one brain's evaluation may produce: the circuit keeps its
/// structure, its neuron buffer ends at the evaluated signals for some
/// admissible reading list, and the activations are exactly the collection
/// over the action-bearing neurons.
pub open spec fn eval_acts_ok(
    acts: Seq<Activation>,
    pre_brain: Network,
    post_brain: Network,
    sensors: Seq<crate::basic_types::Sensor>,
    world: World,
    indiv: Individual,
) -> bool {
    &&& same_structure(post_brain, pre_brain)
    &&& exists|readings: Seq<int>|
        {
            &&& #[trigger] crate::network::readings_ok(
                readings,
                pre_brain.sensor_inputs@,
                sensors,
                world,
                indiv,
            )
            &&& readings.len() == pre_brain.sensor_inputs@.len()
            &&& ({
                let vals = crate::network::run_values(
                    pre_brain.sensor_inputs@,
                    pre_brain.hidden_connections@,
                    pre_brain.neurons@.len(),
                    readings,
                );
                forall|i: int|
                    0 <= i < post_brain.neurons@.len() ==> (#[trigger] post_brain.neurons@[i]).value
                        == vals[i]
            })
        }
    &&& acts == crate::network::collect_activations(
        post_brain.neurons@,
        indiv.index as int,
        post_brain.neurons@.len() as int,
    )
}

/// The whole two-phase step, relationally: some decayed world and some
/// per-slot activation lists, each admissible for its brain against that
/// decayed world, connect the world before the step to the world after it
/// through the serial apply chain.
pub open spec fn step_world_ok(
    pre_world: World,
    pre_brains: Seq<Network>,
    post_brains: Seq<Network>,
    sensors: Seq<crate::basic_types::Sensor>,
    post_world: World,
    pop: int,
) -> bool {
    exists|w1: World, all: Seq<Seq<Activation>>|
        {
            &&& #[trigger] decay_rel(pre_world, w1)
            &&& all.len() == pop
            &&& pre_brains.len() == pop
            &&& post_brains.len() == pop
            &&& forall|k: int|
                0 <= k < pop ==> eval_acts_ok(
                    #[trigger] all[k],
                    pre_brains[k],
                    post_brains[k],
                    sensors,
                    w1,
                    w1.individuals@[k],
                )
            &&& #[trigger] apply_seq(w1, flat_acts(all, pop), post_world)
        }
}

} // verus!
