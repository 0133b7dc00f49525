//! The admission check of a commitment.

use vstd::prelude::*;
use crate::consenso::tipos::{Commitment, CommitmentView, TAMANHO_HASH};
use crate::tempo::Instante;

verus! {

/// The commitment window in seconds: five minutes.
pub const JANELA_COMMITMENT: i64 = 300;

/// Whether a commitment is accepted at `agora` under a window of `janela`
/// seconds: its timestamp is within the window of the clock, on either
/// side; its hash is 32 bytes long; and its node id is not empty.
pub open spec fn commitment_valido(c: CommitmentView, agora: Instante, janela: i64) -> bool {
    &&& !c.timestamp.antes_de(agora.deslocado(-janela))
    &&& !agora.deslocado(janela as int).antes_de(c.timestamp)
    &&& c.hash.len() == TAMANHO_HASH
    &&& c.no_id.len() > 0
}

pub struct ValidadorCommitment {
    janela_tempo: i64,
}

impl ValidadorCommitment {
    /// The window in seconds.
    pub closed spec fn janela(&self) -> i64 {
        self.janela_tempo
    }

    /// A validator with the five-minute window.
    pub fn new() -> (r: ValidadorCommitment)
        ensures
            r.janela() == JANELA_COMMITMENT,
    {
        ValidadorCommitment { janela_tempo: JANELA_COMMITMENT }
    }

    /// Whether `commitment` is accepted at `agora`.
    pub fn validar(&self, commitment: &Commitment, agora: Instante) -> (r: bool)
        ensures
            r == commitment_valido(commitment@, agora, self.janela()),
    {
        let tempo_limite = agora.menos_segundos(self.janela_tempo);
        if commitment.timestamp.anterior_a(&tempo_limite) {
            return false;
        }
        if agora.mais_segundos(self.janela_tempo).anterior_a(&commitment.timestamp) {
            return false;
        }
        if commitment.hash.len() != TAMANHO_HASH {
            return false;
        }
        if commitment.no_id.as_str().is_empty() {
            return false;
        }
        true
    }
}

} // verus!
