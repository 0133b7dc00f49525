//! Matching a reveal against its commitment.

use vstd::prelude::*;
use crate::consenso::tipos::{
    bytes_iguais, calcular_commitment, sha256, Commitment, CommitmentView, Reveal, RevealView,
};

verus! {

/// Whether the reveal opens the commitment: `H(public_key ‖ nonce)` is the
/// committed hash.
pub open spec fn reveal_confere(r: RevealView, c: CommitmentView) -> bool {
    sha256(r.chave_publica + r.nonce) == c.hash
}

pub struct VerificadorReveal;

impl VerificadorReveal {
    pub fn new() -> (r: VerificadorReveal) {
        VerificadorReveal
    }

    /// Whether `revelado` opens `commitment`.
    pub fn verificar(&self, revelado: &Reveal, commitment: &Commitment) -> (r: bool)
        ensures
            r == reveal_confere(revelado@, commitment@),
            r ==> sha256(revelado.chave_publica@ + revelado.nonce@) == commitment.hash@,
    {
        let calculado = calcular_commitment(
            revelado.chave_publica.as_slice(),
            revelado.nonce.as_slice(),
        );
        bytes_iguais(calculado.as_slice(), commitment.hash.as_slice())
    }
}

} // verus!
