//! The round engine: six phases in lock-step, one committed transaction at
//! most per round.

use vstd::prelude::*;
use crate::consenso::merkle::camada::CamadaMerkle;
use crate::consenso::ordenacao::camada::CamadaOrdenacao;
use crate::consenso::ordenacao::gerador_fila::{fila_de, ordenar_fila};
use crate::consenso::processamento::camada::{
    publicada, CamadaProcessamento, TransacaoProcessada,
};
use crate::consenso::processamento::estado::{estado_deixado, EstadoView, GerenciadorEstado};
use crate::consenso::processamento::processador::{contada, transacao_estruturada};
use crate::consenso::processamento::rotacao::rotacionada;
use crate::consenso::registro::camada::CamadaRegistro;
use crate::consenso::registro::validador::{commitment_valido, JANELA_COMMITMENT};
use crate::consenso::merkle::arvore::{folhas_de_ids, raiz_merkle};
use crate::consenso::revelacao::camada::{com_reveal, no_de_reveal, CamadaReveal};
use crate::consenso::revelacao::verificador::reveal_confere;
use crate::consenso::tipos::{
    hash_transacao, hash_zero, visoes_nos, Commitment, CommitmentView, FilaOrdenada, NoView, Reveal,
    RevealView, Transacao, ValidacaoConsenso, ValidacaoView, TAMANHO_HASH,
};
use crate::consenso::validacao::camada::CamadaValidacao;
use crate::consenso::validacao::deteccao_maliciosos::{
    divergentes, hash_majoritario, suspeitas_de, SuspeitaView,
};
use crate::consenso::validacao::quorum::{
    maioria_de, quorum_atingido, votos_cadeia, votos_transacao, THRESHOLD_PADRAO,
    TOTAL_NOS_PADRAO,
};
use crate::consenso::validacao::validador::{hash_cadeia_de, voto_valido};
use crate::erro::Erro;
use crate::tempo::Instante;

verus! {

/// The phases of a round, in order.
#[derive(Clone, Copy, Debug, PartialEq, Eq, Structural)]
pub enum FaseRodada {
    Commitment,
    Reveal,
    Ordenacao,
    Merkle,
    Processamento,
    Validacao,
}

/// The phase that follows `fase`; the phase after validation is the
/// commitment phase of the next round.
pub open spec fn proxima_fase(fase: FaseRodada) -> FaseRodada {
    match fase {
        FaseRodada::Commitment => FaseRodada::Reveal,
        FaseRodada::Reveal => FaseRodada::Ordenacao,
        FaseRodada::Ordenacao => FaseRodada::Merkle,
        FaseRodada::Merkle => FaseRodada::Processamento,
        FaseRodada::Processamento => FaseRodada::Validacao,
        FaseRodada::Validacao => FaseRodada::Commitment,
    }
}

/// The node ids of a queue, head first.
pub open spec fn ids_da_fila(nos: Seq<NoView>) -> Seq<Seq<char>> {
    Seq::new(nos.len(), |i: int| nos[i].id)
}

pub struct SistemaConsenso {
    registro: CamadaRegistro,
    revelacao: CamadaReveal,
    ordenacao: CamadaOrdenacao,
    merkle: CamadaMerkle,
    processamento: CamadaProcessamento,
    validacao: CamadaValidacao,
    fase: FaseRodada,
    fila_atual: Option<FilaOrdenada>,
    em_votacao: Option<String>,
}

impl SistemaConsenso {
    /// The phase that the round is in.
    pub closed spec fn fase(&self) -> FaseRodada {
        self.fase
    }

    /// The chain hash committed last.
    pub closed spec fn hash_anterior(&self) -> Seq<u8> {
        self.processamento.hash_anterior()
    }

    /// The rotating queue of node ids, head first.
    pub closed spec fn fila(&self) -> Seq<Seq<char>> {
        self.processamento.fila()
    }

    /// The ordered queue of the round, `None` before the ordering phase.
    pub closed spec fn fila_ordenada(&self) -> Option<Seq<NoView>> {
        match self.fila_atual {
            Some(f) => Some(visoes_nos(f.nos@)),
            None => None,
        }
    }

    /// The table of commitments of the round.
    pub closed spec fn commitments(&self) -> Map<Seq<char>, CommitmentView> {
        self.registro.tabela()
    }

    /// The accepted reveals of the round.
    pub closed spec fn reveals(&self) -> Seq<RevealView> {
        self.revelacao.reveals()
    }

    /// The approved node ids of the round, in order of approval.
    pub closed spec fn aprovados(&self) -> Seq<Seq<char>> {
        self.revelacao.aprovados()
    }

    /// The seed under which the queue of the round is ordered.
    pub closed spec fn seed(&self) -> Seq<u8> {
        self.ordenacao.seed()
    }

    /// The transaction that is being voted on, `None` where none is.
    pub closed spec fn em_votacao(&self) -> Option<Seq<char>> {
        match self.em_votacao {
            Some(id) => Some(id@),
            None => None,
        }
    }

    /// The accepted votes on the transaction that is being voted on.
    pub closed spec fn votos(&self) -> Seq<ValidacaoView> {
        match self.em_votacao {
            Some(id) => self.validacao.votos_de(id@),
            None => Seq::empty(),
        }
    }

    /// The suspicions that the detector holds against voters.
    pub closed spec fn suspeitas(&self) -> Seq<SuspeitaView> {
        self.validacao.suspeitas()
    }

    /// The number of nodes that the quorum is taken of.
    pub closed spec fn total_nos(&self) -> usize {
        self.validacao.total_nos()
    }

    /// The quorum threshold in per cent.
    pub closed spec fn threshold(&self) -> u32 {
        self.validacao.threshold()
    }

    /// How many transactions passed the processor's structure check.
    pub closed spec fn total_processadas(&self) -> u64 {
        self.processamento.total()
    }

    /// The states that the processor left, one for each transaction id.
    pub closed spec fn estados(&self) -> GerenciadorEstado {
        self.processamento.estados()
    }

    /// Whether transaction `id` has a state, and which.
    pub closed spec fn tem_estado(&self, id: Seq<char>) -> bool {
        self.processamento.tem_estado(id)
    }

    pub closed spec fn estado_de(&self, id: Seq<char>) -> EstadoView {
        self.processamento.estado_de(id)
    }

    /// Whether the round as it stands would commit: a transaction is being
    /// voted on, and its votes reach the quorum.
    pub open spec fn atinge_quorum(&self) -> bool {
        self.em_votacao() is Some && quorum_atingido(
            self.votos(),
            self.total_nos() as nat,
            self.threshold() as nat,
        )
    }

    pub closed spec fn bem_formado(&self) -> bool {
        &&& self.registro.bem_formada()
        &&& self.revelacao.bem_formada()
        &&& self.processamento.bem_formada()
        &&& self.validacao.bem_formada()
    }

    /// An engine at the commitment phase of its first round.
    pub fn new() -> (r: SistemaConsenso)
        ensures
            r.bem_formado(),
            r.fase() == FaseRodada::Commitment,
            r.hash_anterior() == hash_zero(),
            r.fila().len() == 0,
            r.fila_ordenada() is None,
            r.em_votacao() is None,
            r.votos().len() == 0,
            r.commitments() == Map::<Seq<char>, CommitmentView>::empty(),
            r.reveals().len() == 0,
            r.aprovados().len() == 0,
            r.suspeitas().len() == 0,
            r.seed().len() == TAMANHO_HASH,
            r.threshold() == THRESHOLD_PADRAO,
            r.total_nos() == TOTAL_NOS_PADRAO,
    {
        let r = SistemaConsenso {
            registro: CamadaRegistro::new(),
            revelacao: CamadaReveal::new(),
            ordenacao: CamadaOrdenacao::new(),
            merkle: CamadaMerkle::new(),
            processamento: CamadaProcessamento::new(),
            validacao: CamadaValidacao::new(),
            fase: FaseRodada::Commitment,
            fila_atual: None,
            em_votacao: None,
        };
        assert(r.commitments() =~= Map::<Seq<char>, CommitmentView>::empty());
        r
    }

    /// The phase that the round is in.
    pub fn obter_fase(&self) -> (r: FaseRodada)
        ensures
            r == self.fase(),
    {
        self.fase
    }

    /// The chain hash committed last.
    pub fn obter_hash_cadeia_anterior(&self) -> (r: Vec<u8>)
        ensures
            r@ == self.hash_anterior(),
    {
        self.processamento.obter_hash_cadeia_anterior()
    }

    /// Takes a commitment during the commitment phase, where it is valid at
    /// `agora`.
    pub fn adicionar_commitment(&mut self, commitment: Commitment, agora: Instante) -> (r: bool)
        requires
            old(self).bem_formado(),
        ensures
            final(self).bem_formado(),
            final(self).fase() == old(self).fase(),
            final(self).hash_anterior() == old(self).hash_anterior(),
            final(self).fila() == old(self).fila(),
            r == (old(self).fase() == FaseRodada::Commitment && commitment_valido(
                commitment@,
                agora,
                JANELA_COMMITMENT,
            )),
            final(self).commitments() == if r {
                old(self).commitments().insert(commitment@.no_id, commitment@)
            } else {
                old(self).commitments()
            },
    {
        if !matches!(self.fase, FaseRodada::Commitment) {
            return false;
        }
        self.registro.adicionar_commitment(commitment, agora)
    }

    /// Takes a reveal during the reveal phase, where it opens the
    /// commitment of its node.
    pub fn adicionar_reveal(&mut self, revelado: Reveal) -> (r: bool)
        requires
            old(self).bem_formado(),
        ensures
            final(self).bem_formado(),
            final(self).fase() == old(self).fase(),
            final(self).hash_anterior() == old(self).hash_anterior(),
            final(self).fila() == old(self).fila(),
            final(self).commitments() == old(self).commitments(),
            r == (old(self).fase() == FaseRodada::Reveal && old(self).commitments().dom().contains(
                revelado@.no_id,
            ) && reveal_confere(revelado@, old(self).commitments()[revelado@.no_id])),
            !r ==> final(self).reveals() == old(self).reveals() && final(self).aprovados() == old(self).aprovados(),
            r ==> (final(self).reveals(), final(self).aprovados()) == com_reveal(
                old(self).reveals(),
                old(self).aprovados(),
                revelado@,
            ),
    {
        if !matches!(self.fase, FaseRodada::Reveal) {
            return false;
        }
        self.revelacao.adicionar_reveal(revelado, &self.registro)
    }

    /// The seed under which the queue of the round is ordered.
    pub fn obter_seed_atual(&self) -> (r: Vec<u8>)
        ensures
            r@ == self.seed(),
    {
        self.ordenacao.obter_seed_atual()
    }

    /// Replaces the global seed, as every round does once the nodes have
    /// agreed on the next one.
    pub fn atualizar_seed(&mut self, novo_seed: Vec<u8>)
        requires
            old(self).bem_formado(),
        ensures
            final(self).bem_formado(),
            final(self).seed() == novo_seed@,
            final(self).fase() == old(self).fase(),
            final(self).hash_anterior() == old(self).hash_anterior(),
            final(self).fila() == old(self).fila(),
            final(self).fila_ordenada() == old(self).fila_ordenada(),
            final(self).commitments() == old(self).commitments(),
            final(self).reveals() == old(self).reveals(),
            final(self).aprovados() == old(self).aprovados(),
            final(self).em_votacao() == old(self).em_votacao(),
            final(self).votos() == old(self).votos(),
    {
        self.ordenacao.atualizar_seed(novo_seed);
    }

    /// Moves from the commitment phase to the reveal phase, and from the
    /// reveal phase to the ordering phase. In any other phase nothing moves.
    pub fn fechar_janela(&mut self) -> (r: bool)
        requires
            old(self).bem_formado(),
        ensures
            final(self).bem_formado(),
            r == (old(self).fase() == FaseRodada::Commitment || old(self).fase()
                == FaseRodada::Reveal),
            final(self).fase() == if r {
                proxima_fase(old(self).fase())
            } else {
                old(self).fase()
            },
            final(self).hash_anterior() == old(self).hash_anterior(),
            final(self).fila() == old(self).fila(),
            final(self).commitments() == old(self).commitments(),
            final(self).reveals() == old(self).reveals(),
            final(self).aprovados() == old(self).aprovados(),
            final(self).seed() == old(self).seed(),
    {
        match self.fase {
            FaseRodada::Commitment => {
                self.registro.processar_commitments();
                self.fase = FaseRodada::Reveal;
                true
            },
            FaseRodada::Reveal => {
                self.revelacao.processar_reveals();
                self.fase = FaseRodada::Ordenacao;
                true
            },
            _ => false,
        }
    }

    /// The ordering phase: orders the approved nodes under the seed of the
    /// round, makes the result the rotating queue, and takes the number of
    /// nodes as the population of the quorum.
    pub fn ordenar(&mut self, agora: Instante) -> (r: bool)
        requires
            old(self).bem_formado(),
        ensures
            final(self).bem_formado(),
            r == (old(self).fase() == FaseRodada::Ordenacao),
            final(self).hash_anterior() == old(self).hash_anterior(),
            final(self).threshold() == old(self).threshold(),
            final(self).commitments() == old(self).commitments(),
            final(self).reveals() == old(self).reveals(),
            final(self).aprovados() == old(self).aprovados(),
            final(self).seed() == old(self).seed(),
            final(self).suspeitas() == old(self).suspeitas(),
            final(self).em_votacao() == old(self).em_votacao(),
            final(self).votos() == old(self).votos(),
            !r ==> final(self).fila_ordenada() == old(self).fila_ordenada() && final(self).total_nos()
                == old(self).total_nos(),
            !r ==> final(self).fase() == old(self).fase() && final(self).fila() == old(self).fila(),
            r ==> {
                &&& final(self).fase() == FaseRodada::Merkle
                &&& final(self).fila_ordenada() matches Some(f) && {
                    &&& f == ordenar_fila(
                        old(self).reveals().map_values(|v: RevealView| no_de_reveal(v)),
                        old(self).seed(),
                    )
                    &&& fila_de(
                        f,
                        old(self).reveals().map_values(|v: RevealView| no_de_reveal(v)),
                        old(self).seed(),
                    )
                    &&& final(self).fila() == ids_da_fila(f)
                    &&& final(self).total_nos() == f.len()
                }
            },
    {
        if !matches!(self.fase, FaseRodada::Ordenacao) {
            return false;
        }
        let nos = self.revelacao.nos_aprovados();
        let fila = match self.ordenacao.gerar_fila(nos, agora) {
            Ok(f) => f,
            Err(_) => {
                return false;
            },
        };
        let mut ids: Vec<String> = Vec::new();
        let mut i: usize = 0;
        while i < fila.nos.len()
            invariant
                i <= fila.nos@.len(),
                ids@.len() == i,
                forall|k: int| 0 <= k < i ==> (#[trigger] ids@[k])@ == fila.nos@[k].id@,
            decreases fila.nos@.len() - i,
        {
            ids.push(fila.nos[i].id.clone());
            i += 1;
        }
        assert(Seq::new(ids@.len(), |k: int| ids@[k]@) =~= ids_da_fila(visoes_nos(fila.nos@)));
        self.processamento.inicializar_fila(ids);
        self.validacao.atualizar_total_nos(fila.nos.len());
        self.fila_atual = Some(fila);
        self.fase = FaseRodada::Merkle;
        true
    }

    /// The Merkle phase: anchors the ordered queue in a tree and returns the
    /// root; `None` for a queue without nodes.
    pub fn ancorar(&mut self) -> (r: Option<Vec<u8>>)
        requires
            old(self).bem_formado(),
        ensures
            final(self).bem_formado(),
            final(self).fase() == if old(self).fase() == FaseRodada::Merkle {
                FaseRodada::Processamento
            } else {
                old(self).fase()
            },
            final(self).hash_anterior() == old(self).hash_anterior(),
            final(self).fila() == old(self).fila(),
            final(self).fila_ordenada() == old(self).fila_ordenada(),
            final(self).commitments() == old(self).commitments(),
            final(self).reveals() == old(self).reveals(),
            final(self).aprovados() == old(self).aprovados(),
            final(self).seed() == old(self).seed(),
            final(self).suspeitas() == old(self).suspeitas(),
            final(self).em_votacao() == old(self).em_votacao(),
            final(self).votos() == old(self).votos(),
            final(self).threshold() == old(self).threshold(),
            final(self).total_nos() == old(self).total_nos(),
            r is Some <==> old(self).fase() == FaseRodada::Merkle && (old(self).fila_ordenada()
                matches Some(f) && f.len() > 0),
            r matches Some(raiz) ==> (old(self).fila_ordenada() matches Some(f) && raiz@
                == raiz_merkle(folhas_de_ids(ids_da_fila(f)), false)),
    {
        if !matches!(self.fase, FaseRodada::Merkle) {
            return None;
        }
        self.fase = FaseRodada::Processamento;
        match &self.fila_atual {
            Some(fila) => {
                assert(crate::consenso::merkle::arvore::ids_dos_nos(fila.nos@) =~= ids_da_fila(
                    visoes_nos(fila.nos@),
                ));
                match self.merkle.gerar_arvore(fila) {
                    Ok(raiz) => Some(raiz),
                    Err(_) => None,
                }
            },
            None => None,
        }
    }

    /// The processing phase: the head of the ordered queue applies
    /// `transacao`, and the result is put to the vote.
    pub fn processar(&mut self, transacao: &Transacao, agora: Instante) -> (r: Result<
        Option<TransacaoProcessada>,
        Erro,
    >)
        requires
            old(self).bem_formado(),
        ensures
            final(self).bem_formado(),
            final(self).hash_anterior() == old(self).hash_anterior(),
            final(self).fila() == old(self).fila(),
            final(self).threshold() == old(self).threshold(),
            final(self).total_nos() == old(self).total_nos(),
            final(self).fila_ordenada() == old(self).fila_ordenada(),
            final(self).commitments() == old(self).commitments(),
            final(self).reveals() == old(self).reveals(),
            final(self).aprovados() == old(self).aprovados(),
            final(self).seed() == old(self).seed(),
            final(self).suspeitas() == old(self).suspeitas(),
            old(self).fase() != FaseRodada::Processamento ==> {
                &&& r matches Ok(None)
                &&& final(self).fase() == old(self).fase()
                &&& final(self).em_votacao() == old(self).em_votacao()
                &&& final(self).total_processadas() == old(self).total_processadas()
            },
            !(r matches Ok(Some(_))) ==> final(self).estados() == old(self).estados(),
            old(self).fase() == FaseRodada::Processamento ==> {
                &&& final(self).fase() == FaseRodada::Validacao
                &&& match r {
                    Ok(Some(p)) => {
                        &&& old(self).fila_ordenada() matches Some(f) && f.len() > 0 && publicada(
                            transacao@,
                            f[0].id,
                            agora,
                        ) == Some(p.transacao@)
                        &&& old(self).fila_ordenada() matches Some(f) && p.processador_id@
                            == f[0].id
                        &&& hash_transacao(p.transacao@) == Some(p.hash_transacao@)
                        &&& p.hash_cadeia@ == hash_cadeia_de(
                            p.hash_transacao@,
                            old(self).hash_anterior(),
                        )
                        &&& final(self).em_votacao() == Some(p.transacao@.id)
                        &&& final(self).tem_estado(p.transacao@.id)
                        &&& final(self).estado_de(p.transacao@.id) == estado_deixado(
                            p.transacao@,
                            p.processador_id@,
                            p.hash_cadeia@,
                        )
                        &&& final(self).total_processadas() == contada(
                            old(self).total_processadas(),
                        )
                    },
                    Ok(None) => {
                        &&& final(self).em_votacao() is None
                        &&& !(old(self).fila_ordenada() matches Some(f) && f.len() > 0)
                        &&& final(self).total_processadas() == old(self).total_processadas()
                    },
                    Err(e) => {
                        &&& final(self).em_votacao() is None
                        &&& e == if transacao_estruturada(transacao@, agora) {
                            Erro::TimestampSemTexto
                        } else {
                            Erro::TransacaoInvalida
                        }
                        &&& final(self).total_processadas() == if transacao_estruturada(
                            transacao@,
                            agora,
                        ) {
                            contada(old(self).total_processadas())
                        } else {
                            old(self).total_processadas()
                        }
                    },
                }
            },
    {
        if !matches!(self.fase, FaseRodada::Processamento) {
            return Ok(None);
        }
        self.fase = FaseRodada::Validacao;
        self.em_votacao = None;
        let resultado = match &self.fila_atual {
            Some(fila) => self.processamento.processar_transacoes(fila, transacao, agora),
            None => Ok(None),
        };
        match &resultado {
            Ok(Some(p)) => {
                self.em_votacao = Some(p.transacao.id.clone());
            },
            _ => {},
        }
        resultado
    }

    /// Takes a vote during the validation phase, where it is valid at
    /// `agora`, and says whether the votes now reach the quorum.
    pub fn adicionar_validacao(&mut self, validacao: ValidacaoConsenso, agora: Instante) -> (r:
        bool)
        requires
            old(self).bem_formado(),
        ensures
            final(self).bem_formado(),
            final(self).fase() == old(self).fase(),
            final(self).hash_anterior() == old(self).hash_anterior(),
            final(self).fila() == old(self).fila(),
            final(self).em_votacao() == old(self).em_votacao(),
            final(self).threshold() == old(self).threshold(),
            final(self).total_nos() == old(self).total_nos(),
            if old(self).fase() == FaseRodada::Validacao && old(self).em_votacao() is Some
                && voto_valido(validacao@, agora) {
                &&& final(self).votos() == old(self).votos().push(validacao@)
                &&& r == final(self).atinge_quorum()
                &&& final(self).suspeitas() == if r {
                    old(self).suspeitas() + suspeitas_de(
                        divergentes(
                            final(self).votos(),
                            hash_majoritario(votos_transacao(final(self).votos())),
                        ),
                        agora,
                    )
                } else {
                    old(self).suspeitas()
                }
            } else {
                &&& final(self).votos() == old(self).votos()
                &&& final(self).suspeitas() == old(self).suspeitas()
                &&& !r
            },
    {
        if !matches!(self.fase, FaseRodada::Validacao) {
            return false;
        }
        match &self.em_votacao {
            Some(id) => self.validacao.adicionar_validacao(id.as_str(), validacao, agora),
            None => false,
        }
    }

    /// Ends the round. Where the votes reach the quorum the round commits:
    /// the majority chain hash becomes the committed chain hash, and the
    /// queue rotates. Otherwise the transaction is discarded and both stay
    /// as they were. Either way the commitments, the reveals and the votes
    /// of the round are forgotten, and the next round begins.
    pub fn concluir_rodada(&mut self) -> (r: bool)
        requires
            old(self).bem_formado(),
        ensures
            final(self).bem_formado(),
            old(self).fase() != FaseRodada::Validacao ==> {
                &&& !r
                &&& final(self).fase() == old(self).fase()
                &&& final(self).hash_anterior() == old(self).hash_anterior()
                &&& final(self).fila() == old(self).fila()
            },
            old(self).fase() == FaseRodada::Validacao ==> {
                &&& r == old(self).atinge_quorum()
                &&& final(self).fase() == FaseRodada::Commitment
                &&& final(self).em_votacao() is None
                &&& final(self).reveals().len() == 0
                &&& final(self).aprovados().len() == 0
                &&& final(self).commitments() == Map::<Seq<char>, CommitmentView>::empty()
                &&& final(self).threshold() == old(self).threshold()
                &&& final(self).total_nos() == old(self).total_nos()
                &&& final(self).seed() == old(self).seed()
                &&& final(self).suspeitas() == old(self).suspeitas()
                &&& r ==> {
                    &&& maioria_de(votos_cadeia(old(self).votos()), final(self).hash_anterior())
                    &&& final(self).fila() == rotacionada(old(self).fila())
                }
                &&& !r ==> {
                    &&& final(self).hash_anterior() == old(self).hash_anterior()
                    &&& final(self).fila() == old(self).fila()
                }
            },
            final(self).hash_anterior() != old(self).hash_anterior() ==> old(self).fase()
                == FaseRodada::Validacao && old(self).atinge_quorum(),
    {
        if !matches!(self.fase, FaseRodada::Validacao) {
            return false;
        }
        let mut confirmada = false;
        match &self.em_votacao {
            Some(id) => {
                if self.validacao.quorum_de(id.as_str()) {
                    match self.validacao.hash_cadeia_majoritario(id.as_str()) {
                        Some(h) => {
                            self.processamento.confirmar_rodada(h);
                            confirmada = true;
                        },
                        None => {},
                    }
                }
                self.validacao.descartar_validacoes(id.as_str());
            },
            None => {},
        }
        self.registro.limpar_commitments();
        self.revelacao.limpar();
        self.em_votacao = None;
        self.fase = FaseRodada::Commitment;
        assert(self.commitments() =~= Map::<Seq<char>, CommitmentView>::empty());
        confirmada
    }
}

} // verus!
