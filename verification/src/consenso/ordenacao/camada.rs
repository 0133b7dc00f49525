//! The ordering layer of a round: it holds the seed and the last queue.

use vstd::prelude::*;
use crate::consenso::ordenacao::gerador_fila::{fila_de, ordenar_fila, GeradorFila};
use crate::consenso::ordenacao::seed_global::SeedGlobalManager;
use crate::consenso::tipos::{visoes_nos, FilaOrdenada, No, NoView, TAMANHO_HASH};
use crate::erro::Erro;
use crate::tempo::Instante;

verus! {

pub struct CamadaOrdenacao {
    gerador_fila: GeradorFila,
    seed_manager: SeedGlobalManager,
    fila_atual: Option<FilaOrdenada>,
}

impl CamadaOrdenacao {
    /// The seed under which the next queue is ordered.
    pub closed spec fn seed(&self) -> Seq<u8> {
        self.seed_manager.seed()
    }

    /// The nodes of the last queue, `None` before the first.
    pub closed spec fn fila(&self) -> Option<Seq<NoView>> {
        match self.fila_atual {
            Some(f) => Some(visoes_nos(f.nos@)),
            None => None,
        }
    }

    /// A layer with a fresh random seed of 32 bytes and no queue yet.
    pub fn new() -> (r: CamadaOrdenacao)
        ensures
            r.fila() is None,
            r.seed().len() == TAMANHO_HASH,
    {
        CamadaOrdenacao {
            gerador_fila: GeradorFila::new(),
            seed_manager: SeedGlobalManager::new(),
            fila_atual: None,
        }
    }

    /// Orders the approved nodes under the current seed, keeps the queue and
    /// returns it.
    pub fn gerar_fila(&mut self, nos_aprovados: Vec<No>, agora: Instante) -> (r: Result<
        FilaOrdenada,
        Erro,
    >)
        ensures
            final(self).seed() == old(self).seed(),
            r matches Ok(f) && {
                &&& visoes_nos(f.nos@) == ordenar_fila(visoes_nos(nos_aprovados@), old(self).seed())
                &&& fila_de(visoes_nos(f.nos@), visoes_nos(nos_aprovados@), old(self).seed())
                &&& f.seed_global@ == old(self).seed()
                &&& f.timestamp == agora
                &&& final(self).fila() == Some(visoes_nos(f.nos@))
            },
    {
        let seed_global = self.seed_manager.obter_seed_atual();
        match self.gerador_fila.gerar_fila_ordenada(nos_aprovados, seed_global, agora) {
            Ok(fila) => {
                self.fila_atual = Some(fila.duplicar());
                Ok(fila)
            },
            Err(e) => Err(e),
        }
    }

    /// The last queue, `None` before the first.
    pub fn obter_fila_atual(&self) -> (r: Option<FilaOrdenada>)
        ensures
            match r {
                Some(f) => self.fila() == Some(visoes_nos(f.nos@)),
                None => self.fila() is None,
            },
    {
        match &self.fila_atual {
            Some(f) => Some(f.duplicar()),
            None => None,
        }
    }

    /// The seed under which the next queue is ordered.
    pub fn obter_seed_atual(&self) -> (r: Vec<u8>)
        ensures
            r@ == self.seed(),
    {
        self.seed_manager.obter_seed_atual()
    }

    /// Draws a fresh random seed of 32 bytes and puts it in force.
    pub fn gerar_novo_seed(&mut self) -> (r: Vec<u8>)
        ensures
            r@.len() == TAMANHO_HASH,
            final(self).seed() == r@,
            final(self).fila() == old(self).fila(),
    {
        self.seed_manager.gerar_novo_seed()
    }

    /// Replaces the global seed.
    pub fn atualizar_seed(&mut self, novo_seed: Vec<u8>)
        ensures
            final(self).seed() == novo_seed@,
            final(self).fila() == old(self).fila(),
    {
        self.seed_manager.atualizar_seed(novo_seed);
    }
}

} // verus!
