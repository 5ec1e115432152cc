//! Producing, mutating and summarising genomes.
use vstd::prelude::*;
use crate::basic_types::{Gene, Genome};
use crate::randomness;

verus! {

/// A gene with the bit at `bit_index` (mod 32) flipped, under the packed
/// layout: bits [0,16) weight, [16,24) to_neuron, [24,32) from_neuron.
pub open spec fn bit_flip_spec(gene: Gene, bit_index: nat) -> Gene {
    let b = bit_index % 32;
    if b < 16 {
        Gene { weight: gene.weight ^ (1i16 << b), ..gene }
    } else if b < 24 {
        Gene { to_neuron: gene.to_neuron ^ (1u8 << (b - 16)), ..gene }
    } else {
        Gene { from_neuron: gene.from_neuron ^ (1u8 << (b - 24)), ..gene }
    }
}

/// A one-bit flip always changes the gene.
pub proof fn lemma_bit_flip_changes(gene: Gene, bit_index: nat)
    ensures
        bit_flip_spec(gene, bit_index) != gene,
{
    let m = bit_index % 32;
    if m < 16 {
        let w = gene.weight;
        let s = m as u16;
        assert(w ^ (1i16 << s) != w) by (bit_vector)
            requires
                s < 16,
        ;
        assert(1i16 << m == 1i16 << s);
    } else if m < 24 {
        let w = gene.to_neuron;
        let s = (m - 16) as u8;
        assert(w ^ (1u8 << s) != w) by (bit_vector)
            requires
                s < 8,
        ;
        assert(1u8 << (m - 16) == 1u8 << s);
    } else {
        let w = gene.from_neuron;
        let s = (m - 24) as u8;
        assert(w ^ (1u8 << s) != w) by (bit_vector)
            requires
                s < 8,
        ;
        assert(1u8 << (m - 24) == 1u8 << s);
    }
}

/// Flip one bit of the gene, seeing it as one 32-bit string: low bits are the
/// weight, then the target, then the source.
pub fn bit_flip(gene: &mut Gene, bit_index: usize)
    ensures
        *final(gene) == bit_flip_spec(*old(gene), bit_index as nat),
{
    let b = bit_index % 32;
    if b < 16 {
        gene.weight = gene.weight ^ (1i16 << b);
    } else if b < 24 {
        gene.to_neuron = gene.to_neuron ^ (1u8 << (b - 16));
    } else {
        gene.from_neuron = gene.from_neuron ^ (1u8 << (b - 24));
    }
}

/// A genome of identical genes with the given endpoints and a weight fixed
/// at 10000, i.e. 1.0 at the library's fixed-point scale.
pub fn fixed_genome(genome_len: usize, from_neuron: u8, to_neuron: u8) -> (r: Genome)
    ensures
        r@.len() == genome_len,
        forall|i: int|
            0 <= i < genome_len ==> r@[i] == (Gene { from_neuron, to_neuron, weight: 10000i16 }),
{
    let mut res: Genome = Vec::new();
    let mut i: usize = 0;
    while i < genome_len
        invariant
            i <= genome_len,
            res@.len() == i,
            forall|k: int|
                0 <= k < i ==> res@[k] == (Gene { from_neuron, to_neuron, weight: 10000i16 }),
        decreases genome_len - i,
    {
        res.push(Gene { from_neuron, to_neuron, weight: 10000 });
        i = i + 1;
    }
    res
}

/// A genome of the given length with every field drawn uniformly full-range.
pub fn random_genome(genome_len: usize) -> (r: Genome)
    ensures
        r@.len() == genome_len,
{
    let mut res: Genome = Vec::new();
    let mut i: usize = 0;
    while i < genome_len
        invariant
            i <= genome_len,
            res@.len() == i,
        decreases genome_len - i,
    {
        res.push(
            Gene {
                from_neuron: randomness::random_u8(),
                to_neuron: randomness::random_u8(),
                weight: randomness::random_i16(),
            },
        );
        i = i + 1;
    }
    res
}

/// Whether `child` can come out of point-mutating a clone of `parent` at
/// the given per-gene probability in ten-thousandths: same length, each
/// gene kept or with exactly one bit flipped; rate 0 keeps every gene.
/// Rate 10000 changes every gene, which with the keep-or-flip clause means
/// exactly one bit of every gene is flipped.
pub open spec fn mutated_from(child: Seq<Gene>, parent: Seq<Gene>, rate: u32) -> bool {
    &&& child.len() == parent.len()
    &&& forall|i: int|
        0 <= i < parent.len() ==> ((#[trigger] child[i]) == parent[i] || exists|b: nat|
            b < 32 && child[i] == bit_flip_spec(parent[i], b))
    &&& rate == 0 ==> child == parent
    &&& rate == 10000 ==> forall|i: int|
        0 <= i < parent.len() ==> (#[trigger] child[i]) != parent[i]
}

/// Point-mutate a genome in place: each gene independently, with probability
/// `rate` in ten-thousandths, has exactly one of its 32 bits flipped,
/// uniformly chosen. With rate 0 the genome is unchanged; with rate 10000
/// every gene has exactly one bit flipped.
pub fn mutate_genome(rate: u32, genome: &mut Genome)
    requires
        rate <= 10000,
    ensures
        mutated_from(final(genome)@, old(genome)@, rate),
{
    let len = genome.len();
    let mut i: usize = 0;
    while i < len
        invariant
            i <= len,
            rate <= 10000,
            genome@.len() == len,
            len == old(genome)@.len(),
            forall|k: int| i <= k < len ==> genome@[k] == old(genome)@[k],
            forall|k: int|
                0 <= k < i ==> (genome@[k] == old(genome)@[k] || exists|b: nat|
                    b < 32 && genome@[k] == bit_flip_spec(old(genome)@[k], b)),
            rate == 0 ==> genome@ =~= old(genome)@,
            rate == 10000 ==> forall|k: int|
                0 <= k < i ==> (#[trigger] genome@[k]) != old(genome)@[k],
        decreases len - i,
    {
        let draw = randomness::random_below(10000);
        if draw < rate as usize {
            let b = randomness::random_below(32);
            let mut gene = genome[i];
            bit_flip(&mut gene, b);
            genome.set(i, gene);
            proof {
                assert((b as nat) < 32 && genome@[i as int] == bit_flip_spec(
                    old(genome)@[i as int],
                    b as nat,
                ));
                lemma_bit_flip_changes(old(genome)@[i as int], b as nat);
            }
        }
        i = i + 1;
    }
}

/// Sum of the source fields of a genome.
pub open spec fn sum_from(s: Seq<Gene>) -> int
    decreases s.len(),
{
    if s.len() == 0 {
        0
    } else {
        sum_from(s.drop_last()) + s.last().from_neuron
    }
}

/// Sum of the target fields of a genome.
pub open spec fn sum_to(s: Seq<Gene>) -> int
    decreases s.len(),
{
    if s.len() == 0 {
        0
    } else {
        sum_to(s.drop_last()) + s.last().to_neuron
    }
}

/// Sum of the weight fields, each shifted to [0, 65536) and scaled down to
/// the byte range.
pub open spec fn sum_weight_byte(s: Seq<Gene>) -> int
    decreases s.len(),
{
    if s.len() == 0 {
        0
    } else {
        sum_weight_byte(s.drop_last()) + (s.last().weight + 32768) / 256
    }
}

/// The field sums of a genome stay within 255 per gene.
proof fn lemma_genome_sums_bounded(s: Seq<Gene>)
    ensures
        0 <= sum_from(s) <= 255 * s.len(),
        0 <= sum_to(s) <= 255 * s.len(),
        0 <= sum_weight_byte(s) <= 255 * s.len(),
    decreases s.len(),
{
    if s.len() > 0 {
        lemma_genome_sums_bounded(s.drop_last());
    }
}

/// Deterministic, order-independent averaging of the three gene fields into
/// a display colour. Visualisation only; never read by simulation logic.
///
/// An empty genome maps to black.
pub fn genome_to_rgb(genome: &Genome) -> (r: (u8, u8, u8))
    ensures
        genome@.len() == 0 ==> r == (0u8, 0u8, 0u8),
        genome@.len() > 0 ==> {
            &&& r.0 == sum_from(genome@) / genome@.len() as int
            &&& r.1 == sum_to(genome@) / genome@.len() as int
            &&& r.2 == sum_weight_byte(genome@) / genome@.len() as int
        },
{
    let len = genome.len();
    if len == 0 {
        return (0, 0, 0);
    }
    let mut from_acc: u128 = 0;
    let mut to_acc: u128 = 0;
    let mut weight_acc: u128 = 0;
    let mut i: usize = 0;
    while i < len
        invariant
            i <= len,
            len == genome@.len(),
            from_acc == sum_from(genome@.take(i as int)),
            to_acc == sum_to(genome@.take(i as int)),
            weight_acc == sum_weight_byte(genome@.take(i as int)),
            from_acc <= 255 * i,
            to_acc <= 255 * i,
            weight_acc <= 255 * i,
        decreases len - i,
    {
        let gene = genome[i];
        proof {
            assert(genome@.take(i + 1).drop_last() =~= genome@.take(i as int));
            assert(genome@.take(i + 1).last() == genome@[i as int]);
        }
        from_acc = from_acc + gene.from_neuron as u128;
        to_acc = to_acc + gene.to_neuron as u128;
        weight_acc = weight_acc + ((gene.weight as i32 + 32768) / 256) as u128;
        i = i + 1;
    }
    proof {
        assert(genome@.take(len as int) =~= genome@);
        assert(from_acc / (len as u128) <= 255 && to_acc / (len as u128) <= 255 && weight_acc / (
        len as u128) <= 255) by (nonlinear_arith)
            requires
                len >= 1,
                from_acc <= 255 * len,
                to_acc <= 255 * len,
                weight_acc <= 255 * len,
        ;
    }
    ((from_acc / len as u128) as u8, (to_acc / len as u128) as u8, (weight_acc / len as u128) as u8)
}

} // verus!
