//! The blockchain layer: the chain, its validator and its checkpoints
//! behind one door.

use vstd::prelude::*;
use crate::blockchain::bloco::{
    minerado_com, prova_de_trabalho, sem_prova_abaixo, Bloco, BlocoView, TENTATIVAS_MINERACAO,
};
use crate::blockchain::cadeia::{
    admissivel, ajustada, candidato, candidato_existe, lei_politica_preservada, proximo_numero,
    segue_politica, CadeiaBlockchain, DIFICULDADE_INICIAL,
};
use crate::blockchain::checkpoint::{checkpoint_da_ponta, SistemaCheckpoint, INTERVALO_PADRAO};
use crate::blockchain::validador_cadeia::{
    apos_bloco, configuracao_padrao, estado_inicial, veredito, ValidadorCadeia,
};
use crate::consenso::tipos::{visoes_transacoes, Transacao, TransacaoView};
use crate::erro::Erro;
use crate::tempo::Instante;

verus! {

/// Whether the layer can append a block over `txs`: the chain is not full,
/// the next block can be built, one of the first `TENTATIVAS_MINERACAO`
/// nonces mines it, and the validator accepts the block that the first
/// such nonce gives.
pub open spec fn pode_acrescentar(
    blocos: Seq<BlocoView>,
    dificuldade: u32,
    validador: ValidadorCadeia,
    txs: Seq<TransacaoView>,
    agora: Instante,
    duracao_ms: u64,
) -> bool {
    let base = candidato(blocos, txs, agora, dificuldade);
    &&& blocos.len() < usize::MAX
    &&& proximo_numero(blocos) <= u64::MAX
    &&& candidato_existe(blocos, txs, agora)
    &&& exists|n: u64|
        {
            &&& n < TENTATIVAS_MINERACAO
            &&& #[trigger] prova_de_trabalho(base, n)
            &&& sem_prova_abaixo(base, n)
            &&& veredito(
                validador.estado(),
                validador.configuracao(),
                minerado_com(base, n),
                blocos,
                agora,
                duracao_ms,
            )
        }
}

pub struct CamadaBlockchain {
    cadeia: CadeiaBlockchain,
    checkpoint: SistemaCheckpoint,
    validador: ValidadorCadeia,
    persistencia_ativa: bool,
}

impl CamadaBlockchain {
    /// The blocks of the chain, oldest first.
    pub closed spec fn blocos(&self) -> Seq<BlocoView> {
        self.cadeia.blocos()
    }

    /// The difficulty that the next block is mined at.
    pub closed spec fn dificuldade(&self) -> u32 {
        self.cadeia.dificuldade()
    }

    /// The validator of the layer.
    pub closed spec fn validador(&self) -> ValidadorCadeia {
        self.validador
    }

    /// The checkpoints of the layer.
    pub closed spec fn checkpoint(&self) -> SistemaCheckpoint {
        self.checkpoint
    }

    /// How many checkpoints the layer holds.
    pub closed spec fn total_checkpoints(&self) -> nat {
        self.checkpoint.checkpoints().len()
    }

    /// Whether the layer is backed by a store.
    pub closed spec fn persistente(&self) -> bool {
        self.persistencia_ativa
    }

    pub closed spec fn bem_formada(&self) -> bool {
        &&& self.cadeia.bem_formada()
        &&& self.checkpoint.bem_formado()
        &&& self.validador.bem_formado()
    }

    /// A layer over an empty chain, without a store.
    pub fn new() -> (r: CamadaBlockchain)
        ensures
            r.bem_formada(),
            r.blocos().len() == 0,
            r.dificuldade() == DIFICULDADE_INICIAL,
            r.validador().estado() == estado_inicial(),
            r.validador().configuracao() == configuracao_padrao(),
            r.total_checkpoints() == 0,
            r.checkpoint().intervalo() == INTERVALO_PADRAO,
            r.checkpoint().ultimo() is None,
            !r.persistente(),
    {
        CamadaBlockchain {
            cadeia: CadeiaBlockchain::new(),
            checkpoint: SistemaCheckpoint::new(),
            validador: ValidadorCadeia::new(),
            persistencia_ativa: false,
        }
    }

    /// A layer over a chain that was read from a store.
    pub fn new_com_persistencia(cadeia: CadeiaBlockchain) -> (r: CamadaBlockchain)
        requires
            cadeia.bem_formada(),
        ensures
            r.bem_formada(),
            r.blocos() == cadeia.blocos(),
            r.dificuldade() == cadeia.dificuldade(),
            r.total_checkpoints() == 0,
            r.persistente(),
    {
        CamadaBlockchain {
            cadeia,
            checkpoint: SistemaCheckpoint::new(),
            validador: ValidadorCadeia::new(),
            persistencia_ativa: true,
        }
    }

    /// Whether the layer is backed by a store.
    pub fn tem_persistencia(&self) -> (r: bool)
        ensures
            r == self.persistente(),
    {
        self.persistencia_ativa
    }

    /// The chain of the layer.
    pub fn cadeia(&self) -> (r: &CadeiaBlockchain)
        ensures
            r.blocos() == self.blocos(),
            r.dificuldade() == self.dificuldade(),
            self.bem_formada() ==> r.bem_formada(),
    {
        &self.cadeia
    }

    /// Builds and mines the next block over `transacoes`, has the validator
    /// check it, appends it, and makes a checkpoint where one is due. The
    /// appended block is returned. Nothing is appended where the block
    /// cannot be built or mined, and where the validator refuses it.
    pub fn adicionar_bloco(
        &mut self,
        transacoes: Vec<Transacao>,
        agora: Instante,
        duracao_ms: u64,
    ) -> (r: Result<Bloco, Erro>)
        requires
            old(self).bem_formada(),
        ensures
            final(self).bem_formada(),
            final(self).persistente() == old(self).persistente(),
            final(self).validador().configuracao() == old(self).validador().configuracao(),
            final(self).checkpoint().intervalo() == old(self).checkpoint().intervalo(),
            r is Ok <==> pode_acrescentar(
                old(self).blocos(),
                old(self).dificuldade(),
                old(self).validador(),
                visoes_transacoes(transacoes@),
                agora,
                duracao_ms,
            ),
            match r {
                Ok(b) => {
                    let base = candidato(
                        old(self).blocos(),
                        visoes_transacoes(transacoes@),
                        agora,
                        old(self).dificuldade(),
                    );
                    &&& b.nonce < TENTATIVAS_MINERACAO
                    &&& prova_de_trabalho(base, b.nonce)
                    &&& sem_prova_abaixo(base, b.nonce)
                    &&& b@ == minerado_com(base, b.nonce)
                    &&& admissivel(old(self).blocos(), b@)
                    &&& veredito(
                        old(self).validador().estado(),
                        old(self).validador().configuracao(),
                        b@,
                        old(self).blocos(),
                        agora,
                        duracao_ms,
                    )
                    &&& final(self).blocos() == old(self).blocos().push(b@)
                    &&& b.dificuldade == old(self).dificuldade()
                    &&& segue_politica(old(self).blocos()) ==> segue_politica(
                        final(self).blocos(),
                    )
                    &&& final(self).validador().estado() == apos_bloco(
                        old(self).validador().estado(),
                        old(self).validador().configuracao(),
                        b@,
                        old(self).blocos(),
                        agora,
                        duracao_ms,
                    )
                    &&& final(self).dificuldade() == ajustada(
                        old(self).dificuldade(),
                        final(self).blocos().len(),
                    )
                    &&& final(self).total_checkpoints() == old(self).total_checkpoints()
                        + if old(self).checkpoint().devido(b.numero) {
                        1nat
                    } else {
                        0nat
                    }
                    &&& final(self).checkpoint().checkpoints() == if old(self).checkpoint().devido(
                        b.numero,
                    ) {
                        old(self).checkpoint().checkpoints().push(
                            checkpoint_da_ponta(final(self).blocos(), b.numero, agora),
                        )
                    } else {
                        old(self).checkpoint().checkpoints()
                    }
                },
                Err(e) => {
                    let base = candidato(
                        old(self).blocos(),
                        visoes_transacoes(transacoes@),
                        agora,
                        old(self).dificuldade(),
                    );
                    &&& final(self).blocos() == old(self).blocos()
                    &&& final(self).dificuldade() == old(self).dificuldade()
                    &&& final(self).total_checkpoints() == old(self).total_checkpoints()
                    &&& final(self).checkpoint().checkpoints() == old(self).checkpoint().checkpoints()
                    &&& if proximo_numero(old(self).blocos()) > u64::MAX {
                        &&& e == Erro::ForaDeSequencia
                        &&& final(self).validador().estado() == old(self).validador().estado()
                    } else if !candidato_existe(
                        old(self).blocos(),
                        visoes_transacoes(transacoes@),
                        agora,
                    ) {
                        &&& e == Erro::TimestampSemTexto
                        &&& final(self).validador().estado() == old(self).validador().estado()
                    } else if sem_prova_abaixo(base, TENTATIVAS_MINERACAO) {
                        &&& e == Erro::DificuldadeNaoAtingida
                        &&& final(self).validador().estado() == old(self).validador().estado()
                    } else {
                        exists|n: u64|
                            {
                                &&& n < TENTATIVAS_MINERACAO
                                &&& #[trigger] prova_de_trabalho(base, n)
                                &&& sem_prova_abaixo(base, n)
                                &&& final(self).validador().estado() == apos_bloco(
                                    old(self).validador().estado(),
                                    old(self).validador().configuracao(),
                                    minerado_com(base, n),
                                    old(self).blocos(),
                                    agora,
                                    duracao_ms,
                                )
                                &&& e == if veredito(
                                    old(self).validador().estado(),
                                    old(self).validador().configuracao(),
                                    minerado_com(base, n),
                                    old(self).blocos(),
                                    agora,
                                    duracao_ms,
                                ) {
                                    Erro::CadeiaCheia
                                } else {
                                    Erro::EstruturaBlocoInvalida
                                }
                            }
                    }
                },
            },
    {
        let bloco = match self.cadeia.criar_proximo_bloco(transacoes, agora) {
            Ok(b) => b,
            Err(e) => {
                return Err(e);
            },
        };
        if !self.validador.validar_bloco(&bloco, &self.cadeia, agora, duracao_ms) {
            return Err(Erro::EstruturaBlocoInvalida);
        }
        let copia = bloco.duplicar();
        proof {
            if segue_politica(self.cadeia.blocos()) {
                lei_politica_preservada(self.cadeia.blocos(), bloco@);
            }
        }
        match self.cadeia.adicionar_bloco(bloco) {
            Ok(_) => {},
            Err(e) => {
                return Err(e);
            },
        }
        // The new tip is there, and `agora` has its text: a checkpoint that is
        // due is made.
        let _ = self.checkpoint.processar_bloco(&self.cadeia, agora);
        Ok(copia)
    }
}

} // verus!
