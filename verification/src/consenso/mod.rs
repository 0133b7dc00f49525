//! The consensus round: commitment, reveal, ordering, Merkle anchoring,
//! rotating processing and distributed validation.

pub mod tipos;
pub mod merkle;
pub mod ordenacao;
pub mod registro;
pub mod revelacao;
pub mod validacao;
pub mod processamento;
pub mod sistema;
