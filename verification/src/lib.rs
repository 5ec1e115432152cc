//! An agent-based evolutionary simulation core: individuals move on a 2D
//! grid, sense their surroundings, decide actions through a neural circuit
//! decoded from a compact genetic encoding, and are selected generation by
//! generation under a pluggable survival criterion.
//!
//! All signals are fixed-point integers at scale 10000 (see [`signal`]), so
//! the whole decision pipeline is deterministic given the drawn random
//! values, which enter only through [`randomness`].

pub mod basic_types;
pub mod randomness;
pub mod index_functions;
pub mod grid;
pub mod survival_criteria;
pub mod combined_types;
pub mod gene_functions;
pub mod signal;
pub mod sensor_neurons;
pub mod action_neurons;
pub mod network;
pub mod simulation;
