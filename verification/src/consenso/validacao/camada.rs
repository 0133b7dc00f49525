//! The validation layer of a round: it collects the votes on each
//! transaction, decides the quorum, and feeds the detector.

use vstd::prelude::*;
use crate::consenso::tipos::{
    bytes_de_texto, bytes_do_texto, duplicar_votos, lema_bytes_de_texto_injetiva, ValidacaoConsenso, ValidacaoView, visoes_votos,
};
use crate::consenso::validacao::deteccao_maliciosos::{
    divergentes, hash_majoritario, suspeitas_de, DetectorMaliciosos, SuspeitaView,
};
use crate::consenso::validacao::quorum::{
    maioria_de, quorum_atingido, tem_maioria, votos_cadeia, votos_transacao, GerenciadorQuorum,
    THRESHOLD_PADRAO, TOTAL_NOS_PADRAO,
};
use crate::consenso::validacao::validador::{voto_valido, ValidadorDistribuido};
use crate::mapa::MapaOrdenado;
use crate::tempo::Instante;

verus! {

pub struct CamadaValidacao {
    validador: ValidadorDistribuido,
    quorum: GerenciadorQuorum,
    detector_maliciosos: DetectorMaliciosos,
    validacoes: MapaOrdenado<Vec<ValidacaoConsenso>>,
}

impl CamadaValidacao {
    /// The accepted votes on transaction `transacao_id`, oldest first.
    pub closed spec fn votos_de(&self, transacao_id: Seq<char>) -> Seq<ValidacaoView> {
        if self.validacoes.contem(bytes_de_texto(transacao_id)) {
            visoes_votos(self.validacoes.valor_de(bytes_de_texto(transacao_id))@)
        } else {
            Seq::empty()
        }
    }

    /// The suspicions that the detector holds.
    pub closed spec fn suspeitas(&self) -> Seq<SuspeitaView> {
        self.detector_maliciosos.historico()
    }

    /// The quorum threshold in per cent.
    pub closed spec fn threshold(&self) -> u32 {
        self.quorum.threshold()
    }

    /// The number of nodes that the quorum is taken of.
    pub closed spec fn total_nos(&self) -> usize {
        self.quorum.total_nos()
    }

    pub closed spec fn bem_formada(&self) -> bool {
        self.validacoes.bem_formado()
    }

    /// A layer with no votes, a quorum of 70 % over ten nodes, and an empty
    /// detector.
    pub fn new() -> (r: CamadaValidacao)
        ensures
            r.bem_formada(),
            r.threshold() == THRESHOLD_PADRAO,
            r.total_nos() == TOTAL_NOS_PADRAO,
            r.suspeitas().len() == 0,
            forall|id: Seq<char>| r.votos_de(id).len() == 0,
    {
        CamadaValidacao {
            validador: ValidadorDistribuido::new(),
            quorum: GerenciadorQuorum::new(THRESHOLD_PADRAO),
            detector_maliciosos: DetectorMaliciosos::new(),
            validacoes: MapaOrdenado::new(),
        }
    }

    /// Opens the validation phase. The votes are fed by
    /// `adicionar_validacao`; opening changes nothing.
    pub fn validar_consenso(&self)
        requires
            self.bem_formada(),
    {
    }

    /// Sets the number of nodes that the quorum is taken of.
    pub fn atualizar_total_nos(&mut self, total: usize)
        requires
            old(self).bem_formada(),
        ensures
            final(self).bem_formada(),
            final(self).total_nos() == total,
            final(self).threshold() == old(self).threshold(),
            final(self).suspeitas() == old(self).suspeitas(),
            forall|id: Seq<char>| final(self).votos_de(id) == old(self).votos_de(id),
    {
        self.quorum.atualizar_total_nos(total);
    }

    /// Takes a vote on `transacao_id` where it is valid at `agora`, and
    /// says whether the votes on that transaction now reach the quorum. On
    /// quorum the detector is fed the votes. An invalid vote is dropped.
    pub fn adicionar_validacao(
        &mut self,
        transacao_id: &str,
        validacao: ValidacaoConsenso,
        agora: Instante,
    ) -> (r: bool)
        requires
            old(self).bem_formada(),
        ensures
            final(self).bem_formada(),
            final(self).threshold() == old(self).threshold(),
            final(self).total_nos() == old(self).total_nos(),
            forall|id: Seq<char>|
                id != transacao_id@ ==> final(self).votos_de(id) == old(self).votos_de(id),
            !voto_valido(validacao@, agora) ==> {
                &&& !r
                &&& final(self).votos_de(transacao_id@) == old(self).votos_de(transacao_id@)
                &&& final(self).suspeitas() == old(self).suspeitas()
            },
            voto_valido(validacao@, agora) ==> {
                let votos = old(self).votos_de(transacao_id@).push(validacao@);
                &&& final(self).votos_de(transacao_id@) == votos
                &&& r == quorum_atingido(
                    votos,
                    old(self).total_nos() as nat,
                    old(self).threshold() as nat,
                )
                &&& r ==> final(self).suspeitas() == old(self).suspeitas() + suspeitas_de(
                    divergentes(votos, hash_majoritario(votos_transacao(votos))),
                    agora,
                )
                &&& !r ==> final(self).suspeitas() == old(self).suspeitas()
            },
    {
        if !self.validador.verificar_validacao(&validacao, agora) {
            return false;
        }
        let chave = bytes_do_texto(transacao_id);
        let ghost antes = old(self).votos_de(transacao_id@);
        let mut lista = match self.validacoes.obter(chave.as_slice()) {
            Some(l) => duplicar_votos(l),
            None => Vec::new(),
        };
        assert(visoes_votos(lista@) =~= antes);
        let ghost visao = validacao@;
        lista.push(validacao);
        assert(visoes_votos(lista@) =~= antes.push(visao));
        let atingido = self.quorum.verificar_quorum(lista.as_slice());
        if atingido {
            self.detector_maliciosos.analisar_validacoes(lista.as_slice(), agora);
        }
        self.validacoes.inserir(chave, lista);
        proof {
            assert forall|id: Seq<char>| id != transacao_id@ implies self.votos_de(id) == old(self).votos_de(id) by {
                if bytes_de_texto(id) == bytes_de_texto(transacao_id@) {
                    lema_bytes_de_texto_injetiva(id, transacao_id@);
                }
            }
        }
        atingido
    }

    /// The accepted votes on `transacao_id`, oldest first.
    pub fn obter_validacoes(&self, transacao_id: &str) -> (r: Vec<ValidacaoConsenso>)
        requires
            self.bem_formada(),
        ensures
            visoes_votos(r@) == self.votos_de(transacao_id@),
    {
        match self.validacoes.obter(transacao_id.as_bytes()) {
            Some(l) => duplicar_votos(l),
            None => {
                let r: Vec<ValidacaoConsenso> = Vec::new();
                assert(visoes_votos(r@) =~= Seq::<ValidacaoView>::empty());
                r
            },
        }
    }

    /// Forgets the votes on `transacao_id` once its round is decided.
    pub fn descartar_validacoes(&mut self, transacao_id: &str)
        requires
            old(self).bem_formada(),
        ensures
            final(self).bem_formada(),
            final(self).threshold() == old(self).threshold(),
            final(self).total_nos() == old(self).total_nos(),
            final(self).suspeitas() == old(self).suspeitas(),
            final(self).votos_de(transacao_id@).len() == 0,
            forall|id: Seq<char>|
                id != transacao_id@ ==> final(self).votos_de(id) == old(self).votos_de(id),
    {
        self.validacoes.remover(transacao_id.as_bytes());
        proof {
            assert forall|id: Seq<char>| id != transacao_id@ implies self.votos_de(id) == old(self).votos_de(id) by {
                if bytes_de_texto(id) == bytes_de_texto(transacao_id@) {
                    lema_bytes_de_texto_injetiva(id, transacao_id@);
                }
            }
        }
    }

    /// The chain hash that more than half of the votes on `transacao_id`
    /// carry, `None` where none does.
    pub fn hash_cadeia_majoritario(&self, transacao_id: &str) -> (r: Option<Vec<u8>>)
        requires
            self.bem_formada(),
        ensures
            match r {
                Some(h) => maioria_de(votos_cadeia(self.votos_de(transacao_id@)), h@),
                None => !tem_maioria(votos_cadeia(self.votos_de(transacao_id@))),
            },
    {
        let votos = self.obter_validacoes(transacao_id);
        self.quorum.hash_cadeia_majoritario(votos.as_slice())
    }

    /// Whether the votes on `transacao_id` reach the quorum.
    pub fn quorum_de(&self, transacao_id: &str) -> (r: bool)
        requires
            self.bem_formada(),
        ensures
            r == quorum_atingido(
                self.votos_de(transacao_id@),
                self.total_nos() as nat,
                self.threshold() as nat,
            ),
    {
        let votos = self.obter_validacoes(transacao_id);
        self.quorum.verificar_quorum(votos.as_slice())
    }
}

} // verus!
