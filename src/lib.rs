//! Collective communication and Fiat-Shamir transcript synchronisation for a
//! group of cooperating proving workers.
//!
//! `MPIConfig` is the single-process configuration: one worker, which is the
//! root. The `world` module states and implements the same collectives for a
//! group of any size, simulated in one process with one entry per rank.
pub mod field;
pub mod transcript;
pub mod world;
pub mod mpi_config;

pub use field::PrimeField;
pub use transcript::{ArityError, Transcript};
pub use mpi_config::MPIConfig;
