//! The block and chain engine: block construction and proof-of-work, the
//! chain store with its admission rules, checkpoints, and the validation
//! cache.

pub mod bloco;
pub mod formato;
pub mod cadeia;
pub mod persistencia;
pub mod validador_cadeia;
pub mod checkpoint;
pub mod migrador;
pub mod camada;
