//! Merkle anchoring of the seat order, and the tree arithmetic shared with
//! the block engine.

pub mod arvore;
pub mod prova;
pub mod camada;
