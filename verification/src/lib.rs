//! Neuroevolution: feedforward networks whose parameters are bred by a
//! genetic algorithm.
//!
//! The crate is generic over the scalar a network is made of. It owns the
//! shape of a network, the order of its parameters, and every step of a
//! generation; the arithmetic on scalars is handed in by the caller as
//! function values. All randomness comes from one ChaCha8 stream that the
//! caller owns, so a seed fixes every result.

pub mod error;
pub mod random;
pub mod pieces;
pub mod topology;
pub mod network;
pub mod selection;
pub mod crossover;
pub mod mutation;
pub mod genetic;

pub use error::PreconditionViolation;
pub use genetic::GeneticAlgorithm;
pub use genetic::Individual;
pub use crossover::CrossoverMethod;
pub use crossover::UniformCrossover;
pub use mutation::GaussianMutation;
pub use mutation::MutationMethod;
pub use network::Layer;
pub use network::Network;
pub use network::Neuron;
pub use selection::RouletteWheelSelection;
pub use selection::SelectionMethod;
