//! Making a commitment.

use vstd::prelude::*;
use crate::consenso::ordenacao::seed_global::bytes_aleatorios;
use crate::consenso::tipos::{calcular_commitment, sha256, Commitment, TAMANHO_HASH};
use crate::tempo::Instante;

verus! {

pub struct GeradorCommitment;

impl GeradorCommitment {
    /// A fresh random nonce of 32 bytes.
    pub fn gerar_nonce() -> (r: Vec<u8>)
        ensures
            r@.len() == TAMANHO_HASH,
    {
        bytes_aleatorios(TAMANHO_HASH)
    }

    /// The commitment of node `no_id` to `chave_publica` under `nonce`:
    /// `H(pk ‖ nonce)`, stamped with `agora`.
    pub fn criar_commitment(chave_publica: &[u8], nonce: &[u8], no_id: String, agora: Instante) -> (r:
        Commitment)
        ensures
            r.hash@ == sha256(chave_publica@ + nonce@),
            r.hash@.len() == TAMANHO_HASH,
            r.timestamp == agora,
            r.no_id@ == no_id@,
    {
        let hash = calcular_commitment(chave_publica, nonce);
        Commitment { hash, timestamp: agora, no_id }
    }
}

} // verus!
