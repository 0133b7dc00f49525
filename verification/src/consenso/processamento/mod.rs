//! Rotating processing: the head of the queue applies the next transaction,
//! and the queue rotates.

pub mod processador;
pub mod rotacao;
pub mod estado;
pub mod camada;
