//! The neural circuit of one individual: decoded from its genome, evaluated
//! once per step.
use vstd::prelude::*;
use vstd::math::abs;
use crate::basic_types::{Action, Activation, Configuration, Gene, Individual, Sensor, MAX_GENOME_LENGTH};
use crate::combined_types::World;
use crate::sensor_neurons;
use crate::sensor_neurons::sensor_input_spec;
use crate::signal;
use crate::signal::{scale_mul_spec, squash_spec, SCALE};

verus! {

/// One weighted edge: from a sensor slot or a neuron, into a neuron.
#[derive(Debug, Clone, Copy, PartialEq, Eq, Structural)]
pub struct Connection {
    pub input_index: usize,
    pub output_index: usize,
    pub weight: i64,
}

/// One neuron: its accumulated signal, and the action it drives, if any
/// (`None` marks a hidden neuron).
#[derive(Debug, Clone, Copy, PartialEq, Eq, Structural)]
pub struct Neuron {
    pub value: i64,
    pub action: Option<Action>,
}

/// The decoded circuit: sensor-fed edges, neuron-to-neuron edges, the
/// neuron buffer, and the action-slot deduplication map used at decode time.
#[derive(Debug, Clone)]
pub struct Network {
    pub sensor_inputs: Vec<Connection>,
    pub hidden_connections: Vec<Connection>,
    pub neurons: Vec<Neuron>,
    pub action_neuron_map: Vec<Option<usize>>,
}

/// The neuron list (by driven action) and action-slot map after decoding
/// the first `k` genes: `hidden` anonymous neurons up front, then one shared
/// neuron per action that some gene targets, in order of first appearance.
pub open spec fn decode_alloc(genome: Seq<Gene>, k: int, hidden: int, actions: Seq<Action>) -> (
    Seq<Option<Action>>,
    Seq<Option<usize>>,
)
    decreases k,
{
    if k <= 0 {
        (
            Seq::new(hidden as nat, |i: int| None),
            Seq::new(actions.len(), |i: int| None::<usize>),
        )
    } else {
        let prev = decode_alloc(genome, k - 1, hidden, actions);
        let t = (genome[k - 1].to_neuron as int) % (hidden + actions.len() as int);
        if t < hidden {
            prev
        } else if prev.1[t - hidden] is Some {
            prev
        } else {
            (
                prev.0.push(Some(actions[t - hidden])),
                prev.1.update(t - hidden, Some(prev.0.len() as usize)),
            )
        }
    }
}

/// The neuron index that gene `k` feeds, given the allocation state after
/// the first `k` genes: a hidden index directly, a mapped action neuron, or
/// the action neuron the gene itself brings into being.
pub open spec fn decode_output_index(genome: Seq<Gene>, k: int, hidden: int, actions: Seq<Action>) -> int {
    let prev = decode_alloc(genome, k, hidden, actions);
    let t = (genome[k].to_neuron as int) % (hidden + actions.len() as int);
    if t < hidden {
        t
    } else if prev.1[t - hidden] is Some {
        prev.1[t - hidden]->0 as int
    } else {
        prev.0.len() as int
    }
}

/// The sensor-fed and neuron-fed connection lists after decoding the first
/// `k` genes: each gene files exactly one connection, classified by its
/// wrapped source index.
pub open spec fn decode_conns(
    genome: Seq<Gene>,
    k: int,
    n_sensors: int,
    hidden: int,
    actions: Seq<Action>,
) -> (Seq<Connection>, Seq<Connection>)
    decreases k,
{
    if k <= 0 {
        (Seq::empty(), Seq::empty())
    } else {
        let prev = decode_conns(genome, k - 1, n_sensors, hidden, actions);
        let g = genome[k - 1];
        let input = (g.from_neuron as int) % (n_sensors + hidden);
        let out = decode_output_index(genome, k - 1, hidden, actions);
        if input < n_sensors {
            (
                prev.0.push(
                    Connection {
                        input_index: input as usize,
                        output_index: out as usize,
                        weight: g.weight as i64,
                    },
                ),
                prev.1,
            )
        } else {
            (
                prev.0,
                prev.1.push(
                    Connection {
                        input_index: (input - n_sensors) as usize,
                        output_index: out as usize,
                        weight: g.weight as i64,
                    },
                ),
            )
        }
    }
}

/// How many of the first `j` action slots have been given a neuron.
pub open spec fn count_some(m: Seq<Option<usize>>, j: int) -> int
    decreases j,
{
    if j <= 0 {
        0
    } else {
        count_some(m, j - 1) + if m[j - 1] is Some {
            1int
        } else {
            0int
        }
    }
}

/// The allocation count never exceeds the slots counted.
proof fn lemma_count_some_bound(m: Seq<Option<usize>>, j: int)
    requires
        0 <= j,
    ensures
        0 <= count_some(m, j) <= j,
    decreases j,
{
    if j > 0 {
        lemma_count_some_bound(m, j - 1);
    }
}

/// Filling one empty slot raises the allocation count by one.
proof fn lemma_count_some_update(m: Seq<Option<usize>>, i: int, v: usize, j: int)
    requires
        0 <= i < m.len(),
        0 <= j <= m.len(),
        m[i] is None,
    ensures
        count_some(m.update(i, Some(v)), j) == count_some(m, j) + if i < j {
            1int
        } else {
            0int
        },
    decreases j,
{
    if j > 0 {
        lemma_count_some_update(m, i, v, j - 1);
    }
}

/// Structural bounds the allocation state keeps while decoding.
pub proof fn lemma_decode_alloc_wf(genome: Seq<Gene>, k: int, hidden: int, actions: Seq<Action>)
    requires
        0 <= k,
        0 <= hidden,
        hidden + actions.len() >= 1,
        hidden + actions.len() <= usize::MAX,
    ensures
        ({
            let a = decode_alloc(genome, k, hidden, actions);
            &&& hidden <= a.0.len() <= hidden + actions.len()
            &&& a.0.len() == hidden + count_some(a.1, actions.len() as int)
            &&& a.1.len() == actions.len()
            &&& forall|i: int| 0 <= i < hidden ==> a.0[i] is None
            &&& forall|i: int| hidden <= i < a.0.len() ==> (#[trigger] a.0[i]) is Some
            &&& forall|s: int|
                0 <= s < actions.len() && (#[trigger] a.1[s]) is Some ==> hidden <= a.1[s]->0
                    < a.0.len()
        }),
    decreases k,
{
    lemma_count_some_bound(decode_alloc(genome, k, hidden, actions).1, actions.len() as int);
    if k == 0 {
        lemma_count_some_bound(decode_alloc(genome, 0, hidden, actions).1, actions.len() as int);
        assert(count_some(decode_alloc(genome, 0, hidden, actions).1, actions.len() as int) == 0)
            by {
            lemma_count_some_none(
                decode_alloc(genome, 0, hidden, actions).1,
                actions.len() as int,
            );
        }
    } else {
        lemma_decode_alloc_wf(genome, k - 1, hidden, actions);
        let p = decode_alloc(genome, k - 1, hidden, actions);
        let a = decode_alloc(genome, k, hidden, actions);
        let t = (genome[k - 1].to_neuron as int) % (hidden + actions.len() as int);
        if t >= hidden && p.1[t - hidden] is None {
            lemma_count_some_update(p.1, t - hidden, p.0.len() as usize, actions.len() as int);
            assert forall|s: int|
                0 <= s < actions.len() && (#[trigger] a.1[s]) is Some implies hidden <= a.1[s]->0
                < a.0.len() by {
                if s != t - hidden {
                    assert(a.1[s] == p.1[s]);
                } else {
                    assert(a.1[s] == Some(p.0.len() as usize));
                }
            }
        }
    }
}

/// A map with no allocated slot counts zero.
proof fn lemma_count_some_none(m: Seq<Option<usize>>, j: int)
    requires
        0 <= j,
        forall|i: int| 0 <= i < j ==> m[i] is None,
    ensures
        count_some(m, j) == 0,
    decreases j,
{
    if j > 0 {
        lemma_count_some_none(m, j - 1);
    }
}

/// Structural bounds of the decoded connection lists: sources and targets
/// stay inside their pools, weights inside the gene range, and the two
/// lists together hold one connection per gene.
pub proof fn lemma_decode_conns_wf(
    genome: Seq<Gene>,
    k: int,
    n_sensors: int,
    hidden: int,
    actions: Seq<Action>,
)
    requires
        0 <= k,
        0 <= hidden,
        0 <= n_sensors,
        n_sensors + hidden >= 1,
        hidden + actions.len() >= 1,
        hidden + actions.len() <= usize::MAX,
    ensures
        ({
            let c = decode_conns(genome, k, n_sensors, hidden, actions);
            let a = decode_alloc(genome, k, hidden, actions);
            &&& c.0.len() + c.1.len() == k
            &&& forall|j: int|
                0 <= j < c.0.len() ==> {
                    &&& (#[trigger] c.0[j]).input_index < n_sensors
                    &&& c.0[j].output_index < a.0.len()
                    &&& -32768 <= c.0[j].weight <= 32767
                }
            &&& forall|j: int|
                0 <= j < c.1.len() ==> {
                    &&& (#[trigger] c.1[j]).input_index < hidden
                    &&& c.1[j].output_index < a.0.len()
                    &&& -32768 <= c.1[j].weight <= 32767
                }
        }),
    decreases k,
{
    if k > 0 {
        lemma_decode_conns_wf(genome, k - 1, n_sensors, hidden, actions);
        lemma_decode_alloc_wf(genome, k - 1, hidden, actions);
        lemma_decode_alloc_wf(genome, k, hidden, actions);
        let prev_a = decode_alloc(genome, k - 1, hidden, actions);
        let cur = decode_alloc(genome, k, hidden, actions);
        assert(prev_a.0.len() <= cur.0.len());
    }
}

impl Network {
    /// Structural well-formedness against a sensor count: every connection
    /// points inside its pools, weights fit the gene range, and the circuit
    /// is small enough that signals provably never overflow.
    pub open spec fn wf(self, n_sensors: int) -> bool {
        &&& forall|j: int|
            0 <= j < self.sensor_inputs@.len() ==> {
                &&& (#[trigger] self.sensor_inputs@[j]).input_index < n_sensors
                &&& self.sensor_inputs@[j].output_index < self.neurons@.len()
                &&& -32768 <= self.sensor_inputs@[j].weight <= 32767
            }
        &&& forall|j: int|
            0 <= j < self.hidden_connections@.len() ==> {
                &&& (#[trigger] self.hidden_connections@[j]).input_index < self.neurons@.len()
                &&& self.hidden_connections@[j].output_index < self.neurons@.len()
                &&& -32768 <= self.hidden_connections@[j].weight <= 32767
            }
        &&& self.sensor_inputs@.len() + self.hidden_connections@.len() <= MAX_GENOME_LENGTH
    }

    /// A circuit with no neurons and no connections.
    pub fn empty() -> (r: Network)
        ensures
            r.sensor_inputs@.len() == 0,
            r.hidden_connections@.len() == 0,
            r.neurons@.len() == 0,
            r.action_neuron_map@.len() == 0,
            forall|s: int| r.wf(s),
    {
        Network {
            sensor_inputs: Vec::new(),
            hidden_connections: Vec::new(),
            neurons: Vec::new(),
            action_neuron_map: Vec::new(),
        }
    }

    /// Look up, or lazily allocate, the neuron a gene target drives: hidden
    /// targets map to themselves, action targets share one neuron per
    /// action through the deduplication map.
    fn get_output_index(
        &mut self,
        hidden_neurons: usize,
        to_neuron: usize,
        action_neurons: &Vec<Action>,
    ) -> (r: usize)
        requires
            hidden_neurons + action_neurons@.len() >= 1,
            hidden_neurons + action_neurons@.len() <= usize::MAX,
            old(self).action_neuron_map@.len() == action_neurons@.len(),
        ensures
            final(self).sensor_inputs@ == old(self).sensor_inputs@,
            final(self).hidden_connections@ == old(self).hidden_connections@,
            ({
                let t = (to_neuron as int) % (hidden_neurons + action_neurons@.len() as int);
                if t < hidden_neurons {
                    &&& r == t
                    &&& final(self).neurons@ == old(self).neurons@
                    &&& final(self).action_neuron_map@ == old(self).action_neuron_map@
                } else if old(self).action_neuron_map@[t - hidden_neurons] is Some {
                    &&& r == old(self).action_neuron_map@[t - hidden_neurons]->0
                    &&& final(self).neurons@ == old(self).neurons@
                    &&& final(self).action_neuron_map@ == old(self).action_neuron_map@
                } else {
                    &&& r == old(self).neurons@.len()
                    &&& final(self).neurons@ == old(self).neurons@.push(
                        Neuron { value: 0, action: Some(action_neurons@[t - hidden_neurons]) },
                    )
                    &&& final(self).action_neuron_map@ == old(self).action_neuron_map@.update(
                        t - hidden_neurons,
                        Some(old(self).neurons@.len() as usize),
                    )
                }
            }),
    {
        let t = to_neuron % (hidden_neurons + action_neurons.len());
        if t < hidden_neurons {
            t
        } else {
            let action_index = t - hidden_neurons;
            match self.action_neuron_map[action_index] {
                Some(idx) => idx,
                None => {
                    let idx = self.neurons.len();
                    self.neurons.push(
                        Neuron { value: 0, action: Some(action_neurons[action_index]) },
                    );
                    self.action_neuron_map.set(action_index, Some(idx));
                    idx
                },
            }
        }
    }

    /// Rebuild the circuit from a genome: `hidden` anonymous neurons, then
    /// one connection per gene, each gene's source and target read modulo
    /// the current pool sizes, so every genome decodes.
    pub fn initialize_from_genome(&mut self, genome: &Vec<Gene>, config: &Configuration)
        requires
            config.valid(),
            genome@.len() <= MAX_GENOME_LENGTH,
        ensures
            ({
                let n = genome@.len() as int;
                let s = config.sensor_neurons@.len() as int;
                let h = config.hidden_neurons as int;
                let acts = config.action_neurons@;
                let conns = decode_conns(genome@, n, s, h, acts);
                let alloc = decode_alloc(genome@, n, h, acts);
                &&& final(self).sensor_inputs@ == conns.0
                &&& final(self).hidden_connections@ == conns.1
                &&& final(self).neurons@.len() == alloc.0.len()
                &&& forall|i: int|
                    0 <= i < alloc.0.len() ==> (#[trigger] final(self).neurons@[i]) == (Neuron {
                        value: 0,
                        action: alloc.0[i],
                    })
                &&& final(self).action_neuron_map@ == alloc.1
                &&& final(self).wf(s)
            }),
    {
        let ghost gs = genome@;
        let s = config.sensor_neurons.len();
        let h = config.hidden_neurons;
        let ghost acts = config.action_neurons@;
        self.sensor_inputs = Vec::new();
        self.hidden_connections = Vec::new();
        self.neurons = Vec::new();
        self.action_neuron_map = Vec::new();
        let mut i: usize = 0;
        while i < h
            invariant
                i <= h,
                self.neurons@.len() == i,
                forall|j: int|
                    0 <= j < i ==> (#[trigger] self.neurons@[j]) == (Neuron {
                        value: 0,
                        action: None,
                    }),
                self.sensor_inputs@.len() == 0,
                self.hidden_connections@.len() == 0,
                self.action_neuron_map@.len() == 0,
            decreases h - i,
        {
            self.neurons.push(Neuron { value: 0, action: None });
            i = i + 1;
        }
        let n_actions = config.action_neurons.len();
        let mut a: usize = 0;
        while a < n_actions
            invariant
                a <= n_actions,
                n_actions == acts.len(),
                self.neurons@.len() == h,
                forall|j: int|
                    0 <= j < h ==> (#[trigger] self.neurons@[j]) == (Neuron {
                        value: 0,
                        action: None,
                    }),
                self.sensor_inputs@.len() == 0,
                self.hidden_connections@.len() == 0,
                self.action_neuron_map@.len() == a,
                forall|j: int| 0 <= j < a ==> (#[trigger] self.action_neuron_map@[j]) is None,
            decreases n_actions - a,
        {
            self.action_neuron_map.push(None);
            a = a + 1;
        }
        proof {
            let alloc0 = decode_alloc(gs, 0, h as int, acts);
            assert(self.neurons@.len() == alloc0.0.len());
            assert(self.action_neuron_map@ =~= alloc0.1);
            assert(self.sensor_inputs@ =~= decode_conns(gs, 0, s as int, h as int, acts).0);
            assert(self.hidden_connections@ =~= decode_conns(gs, 0, s as int, h as int, acts).1);
        }
        let n = genome.len();
        let mut k: usize = 0;
        while k < n
            invariant
                k <= n,
                n == gs.len(),
                gs.len() <= MAX_GENOME_LENGTH,
                s == config.sensor_neurons@.len(),
                h == config.hidden_neurons,
                acts == config.action_neurons@,
                n_actions == acts.len(),
                config.valid(),
                gs == genome@,
                self.sensor_inputs@ == decode_conns(gs, k as int, s as int, h as int, acts).0,
                self.hidden_connections@ == decode_conns(gs, k as int, s as int, h as int, acts).1,
                self.neurons@.len() == decode_alloc(gs, k as int, h as int, acts).0.len(),
                forall|i2: int|
                    0 <= i2 < self.neurons@.len() ==> (#[trigger] self.neurons@[i2]) == (Neuron {
                        value: 0,
                        action: decode_alloc(gs, k as int, h as int, acts).0[i2],
                    }),
                self.action_neuron_map@ == decode_alloc(gs, k as int, h as int, acts).1,
            decreases n - k,
        {
            let gene = genome[k];
            proof {
                lemma_decode_alloc_wf(gs, k as int, h as int, acts);
            }
            let input_index = (gene.from_neuron as usize) % (s + h);
            let output_index = self.get_output_index(h, gene.to_neuron as usize, &config.action_neurons);
            let weight = gene.weight as i64;
            if input_index < s {
                self.sensor_inputs.push(
                    Connection { input_index, output_index, weight },
                );
            } else {
                self.hidden_connections.push(
                    Connection { input_index: input_index - s, output_index, weight },
                );
            }
            proof {
                let ki = k as int;
                assert(decode_alloc(gs, ki + 1, h as int, acts) == ({
                    let prev = decode_alloc(gs, ki, h as int, acts);
                    let t = (gs[ki].to_neuron as int) % (h + acts.len() as int);
                    if t < h {
                        prev
                    } else if prev.1[t - h] is Some {
                        prev
                    } else {
                        (prev.0.push(Some(acts[t - h])), prev.1.update(t - h, Some(prev.0.len() as usize)))
                    }
                }));
                assert(self.sensor_inputs@ =~= decode_conns(gs, ki + 1, s as int, h as int, acts).0);
                assert(self.hidden_connections@ =~= decode_conns(gs, ki + 1, s as int, h as int, acts).1);
            }
            k = k + 1;
        }
        proof {
            lemma_decode_conns_wf(gs, n as int, s as int, h as int, acts);
            lemma_decode_alloc_wf(gs, n as int, h as int, acts);
        }
    }
}

/// All neuron signals before any accumulation.
pub open spec fn zeroed(n: nat) -> Seq<int> {
    Seq::new(n, |i: int| 0)
}

/// Neuron signals after the first `j` sensor connections have each added
/// their reading times their weight into their target.
pub open spec fn sensor_pass(
    conns: Seq<Connection>,
    readings: Seq<int>,
    values: Seq<int>,
    j: int,
) -> Seq<int>
    decreases j,
{
    if j <= 0 {
        values
    } else {
        let v = sensor_pass(conns, readings, values, j - 1);
        let c = conns[j - 1];
        v.update(
            c.output_index as int,
            v[c.output_index as int] + scale_mul_spec(readings[j - 1], c.weight as int),
        )
    }
}

/// Neuron signals after the first `j` hidden connections have each added
/// the squash of their source's current signal times their weight into
/// their target, in order.
pub open spec fn hidden_pass(conns: Seq<Connection>, values: Seq<int>, j: int) -> Seq<int>
    decreases j,
{
    if j <= 0 {
        values
    } else {
        let v = hidden_pass(conns, values, j - 1);
        let c = conns[j - 1];
        v.update(
            c.output_index as int,
            v[c.output_index as int] + scale_mul_spec(
                squash_spec(v[c.input_index as int]),
                c.weight as int,
            ),
        )
    }
}

/// The neuron signals of one full evaluation: zero everything, run the
/// sensor pass, then the hidden pass.
pub open spec fn run_values(
    sens: Seq<Connection>,
    hid: Seq<Connection>,
    n_neurons: nat,
    readings: Seq<int>,
) -> Seq<int> {
    hidden_pass(hid, sensor_pass(sens, readings, zeroed(n_neurons), sens.len() as int), hid.len() as int)
}

/// What may be true of the per-connection sensor readings of one
/// evaluation: each lies in [-1.0, 1.0], and each sensor but `Random`
/// yields exactly its spec reading.
pub open spec fn readings_ok(
    readings: Seq<int>,
    conns: Seq<Connection>,
    sensors: Seq<Sensor>,
    world: World,
    indiv: Individual,
) -> bool {
    &&& readings.len() <= conns.len()
    &&& forall|j: int|
        0 <= j < readings.len() ==> {
            &&& -(SCALE as int) <= #[trigger] readings[j] <= SCALE as int
            &&& (sensors[conns[j].input_index as int] != Sensor::Random ==> readings[j]
                == sensor_input_spec(sensors[conns[j].input_index as int], world, indiv))
        }
}

/// The sensor pass leaves the buffer length unchanged.
proof fn lemma_sensor_pass_len(conns: Seq<Connection>, readings: Seq<int>, values: Seq<int>, j: int)
    requires
        0 <= j <= conns.len(),
        forall|q: int| 0 <= q < j ==> (#[trigger] conns[q]).output_index < values.len(),
    ensures
        sensor_pass(conns, readings, values, j).len() == values.len(),
    decreases j,
{
    if j > 0 {
        lemma_sensor_pass_len(conns, readings, values, j - 1);
    }
}

/// The hidden pass leaves the buffer length unchanged.
proof fn lemma_hidden_pass_len(conns: Seq<Connection>, values: Seq<int>, j: int)
    requires
        0 <= j <= conns.len(),
        forall|q: int| 0 <= q < j ==> (#[trigger] conns[q]).output_index < values.len(),
    ensures
        hidden_pass(conns, values, j).len() == values.len(),
    decreases j,
{
    if j > 0 {
        lemma_hidden_pass_len(conns, values, j - 1);
    }
}

/// Extending the reading list does not change what the first `j` sensor
/// connections accumulate.
proof fn lemma_sensor_pass_extend(
    conns: Seq<Connection>,
    readings: Seq<int>,
    r_new: int,
    values: Seq<int>,
    j: int,
)
    requires
        0 <= j <= readings.len(),
    ensures
        sensor_pass(conns, readings.push(r_new), values, j) == sensor_pass(
            conns,
            readings,
            values,
            j,
        ),
    decreases j,
{
    if j > 0 {
        lemma_sensor_pass_extend(conns, readings, r_new, values, j - 1);
    }
}

/// One activation per action-bearing neuron, in neuron order: the driven
/// action, the squash of the neuron's final signal, and the owner's slot.
pub open spec fn collect_activations(neurons: Seq<Neuron>, indiv: int, j: int) -> Seq<Activation>
    decreases j,
{
    if j <= 0 {
        Seq::empty()
    } else {
        let p = collect_activations(neurons, indiv, j - 1);
        match neurons[j - 1].action {
            Some(a) => p.push(
                Activation {
                    action: a,
                    weight: squash_spec(neurons[j - 1].value as int) as i64,
                    indiv_index: indiv as usize,
                },
            ),
            None => p,
        }
    }
}

/// Every collected activation belongs to the given individual and carries a
/// squashed signal in [-1.0, 1.0].
pub proof fn lemma_collect_activations_members(neurons: Seq<Neuron>, indiv: int, j: int)
    requires
        0 <= j,
        0 <= indiv <= usize::MAX,
    ensures
        collect_activations(neurons, indiv, j).len() <= j,
        forall|k: int|
            0 <= k < collect_activations(neurons, indiv, j).len() ==> {
                let a = #[trigger] collect_activations(neurons, indiv, j)[k];
                &&& a.indiv_index == indiv
                &&& -(SCALE as int) <= a.weight <= SCALE as int
            },
    decreases j,
{
    if j > 0 {
        lemma_collect_activations_members(neurons, indiv, j - 1);
        signal::lemma_squash_range(neurons[j - 1].value as int);
        let p = collect_activations(neurons, indiv, j - 1);
        let cur = collect_activations(neurons, indiv, j);
        assert forall|k: int| 0 <= k < cur.len() implies {
            let a = #[trigger] cur[k];
            &&& a.indiv_index == indiv
            &&& -(SCALE as int) <= a.weight <= SCALE as int
        } by {
            if k < p.len() {
                assert(cur[k] == p[k]);
            }
        }
    }
}

impl Network {
    /// Evaluate the circuit for one individual against a read-only world:
    /// zero the neuron buffer, accumulate sensor readings through the
    /// sensor connections, then squashed neuron signals through the hidden
    /// connections, and emit one activation per action-bearing neuron.
    ///
    /// The structure of the circuit is untouched; the neuron buffer ends at
    /// the evaluated signals for some admissible reading list (the `Random`
    /// sensor draws fresh on every connection).
    pub fn run(
        &mut self,
        sensor_neurons: &Vec<Sensor>,
        world: &World,
        individual: &Individual,
    ) -> (r: Vec<Activation>)
        requires
            old(self).wf(sensor_neurons@.len() as int),
            world.grid.wf(),
            individual.grid_index < world.grid.tiles@.len(),
        ensures
            final(self).sensor_inputs@ == old(self).sensor_inputs@,
            final(self).hidden_connections@ == old(self).hidden_connections@,
            final(self).action_neuron_map@ == old(self).action_neuron_map@,
            final(self).neurons@.len() == old(self).neurons@.len(),
            forall|i: int|
                0 <= i < old(self).neurons@.len() ==> (#[trigger] final(self).neurons@[i]).action
                    == old(self).neurons@[i].action,
            final(self).wf(sensor_neurons@.len() as int),
            exists|readings: Seq<int>|
                {
                    &&& #[trigger] readings_ok(
                        readings,
                        old(self).sensor_inputs@,
                        sensor_neurons@,
                        *world,
                        *individual,
                    )
                    &&& readings.len() == old(self).sensor_inputs@.len()
                    &&& ({
                        let vals = run_values(
                            old(self).sensor_inputs@,
                            old(self).hidden_connections@,
                            old(self).neurons@.len(),
                            readings,
                        );
                        forall|i: int|
                            0 <= i < old(self).neurons@.len() ==> (#[trigger] final(self).neurons@[i]).value == vals[i]
                    })
                },
            r@ == collect_activations(
                final(self).neurons@,
                individual.index as int,
                old(self).neurons@.len() as int,
            ),
    {
        let n = self.neurons.len();
        let ghost sens = self.sensor_inputs@;
        let ghost hid = self.hidden_connections@;
        let ghost acts0 = self.neurons@;
        let mut i: usize = 0;
        while i < n
            invariant
                i <= n,
                n == self.neurons@.len(),
                self.sensor_inputs@ == sens,
                self.hidden_connections@ == hid,
                self.action_neuron_map@ == old(self).action_neuron_map@,
                acts0 == old(self).neurons@,
                forall|k: int|
                    0 <= k < n ==> (#[trigger] self.neurons@[k]).action == acts0[k].action,
                forall|k: int| 0 <= k < i ==> (#[trigger] self.neurons@[k]).value == 0,
            decreases n - i,
        {
            let nu = self.neurons[i];
            self.neurons.set(i, Neuron { value: 0, action: nu.action });
            i = i + 1;
        }
        proof {
            assert forall|k: int| 0 <= k < n implies (#[trigger] self.neurons@[k]).value == zeroed(
                n as nat,
            )[k] by {}
        }
        let slen = self.sensor_inputs.len();
        let ghost mut readings: Seq<int> = Seq::empty();
        let mut j: usize = 0;
        while j < slen
            invariant
                j <= slen,
                slen == sens.len(),
                n == self.neurons@.len(),
                self.sensor_inputs@ == sens,
                self.hidden_connections@ == hid,
                self.action_neuron_map@ == old(self).action_neuron_map@,
                acts0 == old(self).neurons@,
                world.grid.wf(),
                individual.grid_index < world.grid.tiles@.len(),
                sens.len() + hid.len() <= MAX_GENOME_LENGTH,
                forall|q: int|
                    0 <= q < sens.len() ==> {
                        &&& (#[trigger] sens[q]).input_index < sensor_neurons@.len()
                        &&& sens[q].output_index < n
                        &&& -32768 <= sens[q].weight <= 32767
                    },
                readings.len() == j,
                readings_ok(readings, sens, sensor_neurons@, *world, *individual),
                forall|k: int|
                    0 <= k < n ==> (#[trigger] self.neurons@[k]).action == acts0[k].action,
                forall|k: int|
                    0 <= k < n ==> (#[trigger] self.neurons@[k]).value == sensor_pass(
                        sens,
                        readings,
                        zeroed(n as nat),
                        j as int,
                    )[k],
                forall|k: int|
                    0 <= k < n ==> -32768 * (j as int) <= (#[trigger] self.neurons@[k]).value
                        <= 32768 * (j as int),
            decreases slen - j,
        {
            let c = self.sensor_inputs[j];
            let sensor = sensor_neurons[c.input_index];
            let reading = sensor_neurons::get_sensor_input(sensor, world, individual);
            let term = signal::scale_mul(reading, c.weight);
            proof {
                assert(abs(reading as int) * abs(c.weight as int) <= 10000 * 32768 && abs(
                    reading as int,
                ) * abs(c.weight as int) / 10000 <= 32768) by (nonlinear_arith)
                    requires
                        abs(reading as int) <= 10000,
                        abs(c.weight as int) <= 32768,
                ;
            }
            let nu = self.neurons[c.output_index];
            self.neurons.set(c.output_index, Neuron { value: nu.value + term, action: nu.action });
            proof {
                let readings0 = readings;
                lemma_sensor_pass_extend(sens, readings0, reading as int, zeroed(n as nat), j as int);
                readings = readings0.push(reading as int);
                let prevv = sensor_pass(sens, readings, zeroed(n as nat), j as int);
                let curv = sensor_pass(sens, readings, zeroed(n as nat), j + 1);
                lemma_sensor_pass_len(sens, readings, zeroed(n as nat), j as int);
                assert(readings[j as int] == reading as int);
                assert(curv == prevv.update(
                    c.output_index as int,
                    prevv[c.output_index as int] + scale_mul_spec(readings[j as int], c.weight as int),
                ));
                assert forall|k: int| 0 <= k < n implies (#[trigger] self.neurons@[k]).value
                    == curv[k] by {
                    if k != c.output_index as int {
                        assert(curv[k] == prevv[k]);
                    }
                }
            }
            j = j + 1;
        }
        let hlen = self.hidden_connections.len();
        let mut j2: usize = 0;
        while j2 < hlen
            invariant
                j2 <= hlen,
                hlen == hid.len(),
                slen == sens.len(),
                n == self.neurons@.len(),
                self.sensor_inputs@ == sens,
                self.hidden_connections@ == hid,
                self.action_neuron_map@ == old(self).action_neuron_map@,
                acts0 == old(self).neurons@,
                sens.len() + hid.len() <= MAX_GENOME_LENGTH,
                forall|q: int|
                    0 <= q < sens.len() ==> (#[trigger] sens[q]).output_index < n,
                forall|q: int|
                    0 <= q < hid.len() ==> {
                        &&& (#[trigger] hid[q]).input_index < n
                        &&& hid[q].output_index < n
                        &&& -32768 <= hid[q].weight <= 32767
                    },
                readings.len() == slen,
                readings_ok(readings, sens, sensor_neurons@, *world, *individual),
                forall|k: int|
                    0 <= k < n ==> (#[trigger] self.neurons@[k]).action == acts0[k].action,
                forall|k: int|
                    0 <= k < n ==> (#[trigger] self.neurons@[k]).value == hidden_pass(
                        hid,
                        sensor_pass(sens, readings, zeroed(n as nat), slen as int),
                        j2 as int,
                    )[k],
                forall|k: int|
                    0 <= k < n ==> -32768 * (slen as int + j2 as int) <= (#[trigger] self.neurons@[
                        k
                    ]).value <= 32768 * (slen as int + j2 as int),
            decreases hlen - j2,
        {
            let c = self.hidden_connections[j2];
            let source = self.neurons[c.input_index].value;
            proof {
                assert(32768 * (slen as int + j2 as int) <= 32768 * MAX_GENOME_LENGTH)
                    by (nonlinear_arith)
                    requires
                        0 <= slen as int + j2 as int <= MAX_GENOME_LENGTH,
                ;
            }
            let reading = signal::squash(source);
            let term = signal::scale_mul(reading, c.weight);
            proof {
                assert(abs(reading as int) * abs(c.weight as int) <= 10000 * 32768 && abs(
                    reading as int,
                ) * abs(c.weight as int) / 10000 <= 32768) by (nonlinear_arith)
                    requires
                        abs(reading as int) <= 10000,
                        abs(c.weight as int) <= 32768,
                ;
            }
            let nu = self.neurons[c.output_index];
            self.neurons.set(c.output_index, Neuron { value: nu.value + term, action: nu.action });
            proof {
                let base = sensor_pass(sens, readings, zeroed(n as nat), slen as int);
                let prevv = hidden_pass(hid, base, j2 as int);
                let curv = hidden_pass(hid, base, j2 + 1);
                lemma_sensor_pass_len(sens, readings, zeroed(n as nat), slen as int);
                lemma_hidden_pass_len(hid, base, j2 as int);
                assert(curv == prevv.update(
                    c.output_index as int,
                    prevv[c.output_index as int] + scale_mul_spec(
                        squash_spec(prevv[c.input_index as int]),
                        c.weight as int,
                    ),
                ));
                assert(source == prevv[c.input_index as int]);
                assert forall|k: int| 0 <= k < n implies (#[trigger] self.neurons@[k]).value
                    == curv[k] by {
                    if k != c.output_index as int {
                        assert(curv[k] == prevv[k]);
                    }
                }
            }
            j2 = j2 + 1;
        }
        proof {
            assert(32768 * (slen as int + hlen as int) <= 32768 * MAX_GENOME_LENGTH)
                by (nonlinear_arith)
                requires
                    0 <= slen as int + hlen as int <= MAX_GENOME_LENGTH,
            ;
        }
        let mut res: Vec<Activation> = Vec::new();
        let mut i2: usize = 0;
        while i2 < n
            invariant
                i2 <= n,
                n == self.neurons@.len(),
                self.sensor_inputs@ == sens,
                self.hidden_connections@ == hid,
                self.action_neuron_map@ == old(self).action_neuron_map@,
                forall|k: int|
                    0 <= k < n ==> -32768 * MAX_GENOME_LENGTH <= (#[trigger] self.neurons@[k]).value
                        <= 32768 * MAX_GENOME_LENGTH,
                res@ == collect_activations(self.neurons@, individual.index as int, i2 as int),
            decreases n - i2,
        {
            let nu = self.neurons[i2];
            match nu.action {
                Some(a) => {
                    let weight = signal::squash(nu.value);
                    res.push(Activation { action: a, weight, indiv_index: individual.index });
                },
                None => {},
            }
            i2 = i2 + 1;
        }
        proof {
            assert(readings_ok(readings, sens, sensor_neurons@, *world, *individual) && readings.len()
                == sens.len());
        }
        res
    }
}

} // verus!
