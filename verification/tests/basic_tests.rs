use sim_lib::basic_types::{Configuration, Gene, GENE_BITS};
use sim_lib::survival_criteria::SurvivalCriteria;

#[test]
fn gene_bit_size() {
    assert_eq!(GENE_BITS, 8 * std::mem::size_of::<Gene>());
}

#[test]
fn default_configuration() {
    let config = Configuration::default();
    assert_eq!(24, config.genome_length);
    assert_eq!(1000, config.population_size);
    assert_eq!(5, config.hidden_neurons);
    assert_eq!(300, config.generation_steps);
    assert_eq!(0, config.mutation_rate);
    assert_eq!(SurvivalCriteria::Border(100), config.criteria);
    assert_eq!(7, config.sensor_neurons.len());
    assert_eq!(6, config.action_neurons.len());
}
