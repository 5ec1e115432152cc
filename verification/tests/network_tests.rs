use sim_lib::basic_types::{Action, Configuration, Coord, Gene, Individual, Sensor};
use sim_lib::combined_types::World;
use sim_lib::network::Network;

#[test]
fn zero_weight() {
    let gene = Gene { from_neuron: 0, to_neuron: 0, weight: 0 };

    let mut config = Configuration::default();
    let sensor_neurons = vec![Sensor::Constant, Sensor::Constant, Sensor::Constant];
    config.hidden_neurons = 0;
    config.sensor_neurons = sensor_neurons.clone();
    config.action_neurons = vec![Action::MoveForward, Action::MoveX];

    let mut network = Network::empty();

    network.initialize_from_genome(&vec![gene], &config);

    let world = World::new(Coord { x: 128, y: 128 });
    let indiv = Individual::new();

    let actions = network.run(&sensor_neurons, &world, &indiv);

    println!("{:?}", network);

    // should be action
    assert_eq!(1, actions.len());

    // should be index 0
    assert_eq!(Action::MoveForward, actions[0].action);

    // should be weight 0
    assert_eq!(0, actions[0].weight);
}

#[test]
fn weight_1() {
    let gene = Gene { from_neuron: 0, to_neuron: 1, weight: 10000 };

    let mut config = Configuration::default();
    let sensor_neurons = vec![Sensor::Constant, Sensor::Constant, Sensor::Constant];
    config.hidden_neurons = 1;
    config.sensor_neurons = sensor_neurons.clone();
    config.action_neurons = vec![Action::MoveForward, Action::MoveX];

    let mut network = Network::empty();

    network.initialize_from_genome(&vec![gene], &config);

    let world = World::new(Coord { x: 128, y: 128 });
    let indiv = Individual::new();

    let actions = network.run(&sensor_neurons, &world, &indiv);

    println!("{:?}", network);

    // should be action
    assert_eq!(1, actions.len());

    // should be index 0
    assert_eq!(Action::MoveForward, actions[0].action);

    // the squash of 1.0 at scale
    assert_eq!(7777, actions[0].weight);
}

#[test]
fn weight_negative_hidden() {
    let gene = Gene { from_neuron: 0, to_neuron: 0, weight: 10000 };

    let gene1 = Gene { from_neuron: 1, to_neuron: 1, weight: -10000 };

    let mut config = Configuration::default();
    let sensor_neurons = vec![Sensor::Constant, Sensor::Constant, Sensor::Constant];
    config.hidden_neurons = 1;
    config.sensor_neurons = sensor_neurons.clone();
    config.action_neurons = vec![Action::MoveForward, Action::MoveX];

    let mut network = Network::empty();

    network.initialize_from_genome(&vec![gene, gene1], &config);

    let world = World::new(Coord { x: 128, y: 128 });
    let indiv = Individual::new();

    let actions = network.run(&sensor_neurons, &world, &indiv);

    println!("{:#?}", network);

    // should be action
    assert_eq!(1, actions.len());

    // should be index 0
    assert_eq!(Action::MoveForward, actions[0].action);

    // the squash of -1.0 at scale
    assert_eq!(-7777, actions[0].weight);
}
