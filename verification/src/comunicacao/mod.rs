//! What the consensus engine asks of the network: signed wire messages, the
//! peer table, the retry policy and the fan-out of a broadcast.

pub mod protocolo;
pub mod broadcast;
pub mod retry;
pub mod rede;
