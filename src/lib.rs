//! Evolution of small neural-network driven agents: the network structure,
//! the genetic operators that breed it, and the bookkeeping of the
//! simulation that ties both together.

pub mod brain;
pub mod chromosome;
pub mod clock;
pub mod crossover;
pub mod genetic;
pub mod mutation;
pub mod network;
mod random;
pub mod selection;
