//! Distributed validation: votes, the quorum decision, and the analysis of
//! voters that diverge from the majority.

pub mod validador;
pub mod quorum;
pub mod deteccao_maliciosos;
pub mod camada;
