//! The commitment phase: the table of commitments of a round.

pub mod commitment;
pub mod validador;
pub mod camada;
