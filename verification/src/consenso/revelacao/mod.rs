//! The reveal phase: reveals are matched against commitments, and the nodes
//! whose reveal matches form the approved set.

pub mod verificador;
pub mod fila_aprovados;
pub mod camada;
