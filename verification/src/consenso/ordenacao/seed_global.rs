//! The global seed of a round.

use vstd::prelude::*;
use crate::consenso::tipos::{copiar_bytes, TAMANHO_HASH};

verus! {

/// Fills `n` bytes from `rand::thread_rng` with `RngCore::fill_bytes`.
///
/// Trusted: the result has `n` bytes. Nothing is claimed of what they are.
#[verifier::external_body]
pub(crate) fn bytes_aleatorios(n: usize) -> (r: Vec<u8>)
    ensures
        r@.len() == n,
{
    let mut bytes = vec![0u8; n];
    rand::RngCore::fill_bytes(&mut rand::thread_rng(), &mut bytes);
    bytes
}

pub struct SeedGlobalManager {
    seed_atual: Vec<u8>,
}

impl SeedGlobalManager {
    /// The seed in force.
    pub closed spec fn seed(&self) -> Seq<u8> {
        self.seed_atual@
    }

    /// A manager with a fresh random seed of 32 bytes.
    pub fn new() -> (r: SeedGlobalManager)
        ensures
            r.seed().len() == TAMANHO_HASH,
    {
        SeedGlobalManager { seed_atual: bytes_aleatorios(TAMANHO_HASH) }
    }

    /// The current seed.
    pub fn obter_seed_atual(&self) -> (r: Vec<u8>)
        ensures
            r@ == self.seed(),
    {
        copiar_bytes(&self.seed_atual)
    }

    /// Replaces the seed.
    pub fn atualizar_seed(&mut self, novo_seed: Vec<u8>)
        ensures
            final(self).seed() == novo_seed@,
    {
        self.seed_atual = novo_seed;
    }

    /// Draws a fresh random seed of 32 bytes, puts it in force and returns
    /// it.
    pub fn gerar_novo_seed(&mut self) -> (r: Vec<u8>)
        ensures
            r@.len() == TAMANHO_HASH,
            final(self).seed() == r@,
    {
        let novo_seed = bytes_aleatorios(TAMANHO_HASH);
        self.atualizar_seed(copiar_bytes(&novo_seed));
        novo_seed
    }
}

} // verus!
