use sim_lib::gene_functions::{bit_flip, fixed_genome, genome_to_rgb, mutate_genome, random_genome};
use sim_lib::basic_types::Gene;

#[test]
fn bit_flip_test() {
    let gene = fixed_genome(1, 0, 0)[0];

    let mut mut_gene = gene.clone();

    // FLIPPING FROM NEURON
    let before = mut_gene.from_neuron;
    bit_flip(&mut mut_gene, 31);

    assert_ne!(before, mut_gene.from_neuron);
    assert_eq!(128, mut_gene.from_neuron);

    // FLIPPING TO NEURON
    let before = mut_gene.to_neuron;
    bit_flip(&mut mut_gene, 17);

    assert_ne!(before, mut_gene.to_neuron);
    assert_eq!(2, mut_gene.to_neuron);

    // FLIPPING WEIGHT
    let before = mut_gene.weight;
    bit_flip(&mut mut_gene, 2);

    assert_ne!(before, mut_gene.weight);
    assert_eq!(10004, mut_gene.weight);
}

fn packed(g: &Gene) -> u32 {
    ((g.from_neuron as u32) << 24) | ((g.to_neuron as u32) << 16) | ((g.weight as u16) as u32)
}

#[test]
fn mutate_zero_rate_is_identity() {
    let mut genome = fixed_genome(8, 3, 7);
    let before = genome.clone();
    mutate_genome(0, &mut genome);
    assert_eq!(before, genome);
}

#[test]
fn mutate_full_rate_flips_one_bit_per_gene() {
    let genome0 = fixed_genome(16, 3, 7);
    let mut genome = genome0.clone();
    mutate_genome(10000, &mut genome);
    assert_eq!(genome0.len(), genome.len());
    for i in 0..genome.len() {
        let diff = packed(&genome0[i]) ^ packed(&genome[i]);
        assert_eq!(1, diff.count_ones());
    }
}

#[test]
fn random_genome_has_requested_length() {
    assert_eq!(10, random_genome(10).len());
    assert_eq!(0, random_genome(0).len());
}

#[test]
fn genome_rgb_averages_fields() {
    let genome = vec![
        Gene { from_neuron: 10, to_neuron: 20, weight: 0 },
        Gene { from_neuron: 20, to_neuron: 40, weight: 256 },
    ];
    assert_eq!((15, 30, 128), genome_to_rgb(&genome));
    assert_eq!((0, 0, 0), genome_to_rgb(&Vec::new()));
}
