//! Permissioned blockchain node core: commit-reveal leader election, a rotating
//! single-processor consensus round, a hash-linked block store, and the
//! validation cache with its voting-consistency analysis.

pub mod erro;
pub mod tempo;
pub mod mapa;
pub mod codificacao;
pub mod consenso;
pub mod blockchain;
pub mod comunicacao;
pub mod recompensas;
