//! The ordering phase: seat digests, the global seed, and the ordered queue.

pub mod lexico;
pub mod gerador_fila;
pub mod seed_global;
pub mod camada;
