//! The processing layer of a round: the processor, the rotation, the states,
//! and the chain hash committed last.

use vstd::prelude::*;
use crate::consenso::merkle::arvore::hash_zero_vec;
use crate::consenso::processamento::estado::{estado_deixado, EstadoView, GerenciadorEstado};
use crate::consenso::processamento::processador::{
    aplicada, assinatura_processador, contada, transacao_estruturada, ProcessadorTransacao,
};
use crate::consenso::processamento::rotacao::{rotacionada, GerenciadorRotacao};
use crate::consenso::tipos::{
    calcular_hash, canonico_transacao, concatenar, copiar_bytes, hash_transacao, hash_zero, FilaOrdenada, Transacao, TransacaoView,
};
use crate::consenso::validacao::validador::hash_cadeia_de;
use crate::erro::Erro;
use crate::tempo::Instante;

verus! {

/// What the processor publishes for the validators: the applied
/// transaction, its hash, and the chain hash that follows from it.
pub struct TransacaoProcessada {
    pub transacao: Transacao,
    pub hash_transacao: Vec<u8>,
    pub hash_cadeia: Vec<u8>,
    pub processador_id: String,
}

/// The transaction as the processor publishes it: applied at `agora` and
/// signed by `processador_id`. `None` where `agora` has no ISO-8601 text.
pub open spec fn publicada(tx: TransacaoView, processador_id: Seq<char>, agora: Instante) -> Option<
    TransacaoView,
> {
    match canonico_transacao(aplicada(tx, agora)) {
        Some(c) => Some(
            TransacaoView {
                assinatura: assinatura_processador(processador_id, c),
                ..aplicada(tx, agora)
            },
        ),
        None => None,
    }
}

pub struct CamadaProcessamento {
    processador: ProcessadorTransacao,
    rotacao: GerenciadorRotacao,
    estado: GerenciadorEstado,
    hash_cadeia_anterior: Vec<u8>,
}

impl CamadaProcessamento {
    /// The chain hash committed last: 32 zero bytes before the first commit.
    pub closed spec fn hash_anterior(&self) -> Seq<u8> {
        self.hash_cadeia_anterior@
    }

    /// The rotating queue of node ids, head first.
    pub closed spec fn fila(&self) -> Seq<Seq<char>> {
        self.rotacao.fila()
    }

    /// How many transactions passed the structure check.
    pub closed spec fn total(&self) -> u64 {
        self.processador.total()
    }

    /// Whether transaction `id` has a state, and which.
    pub closed spec fn tem_estado(&self, id: Seq<char>) -> bool {
        self.estado.tem(id)
    }

    pub closed spec fn estado_de(&self, id: Seq<char>) -> EstadoView {
        self.estado.estado_de(id)
    }

    /// The states that the layer keeps.
    pub closed spec fn estados(&self) -> GerenciadorEstado {
        self.estado
    }

    pub closed spec fn bem_formada(&self) -> bool {
        self.estado.bem_formado()
    }

    pub fn new() -> (r: CamadaProcessamento)
        ensures
            r.bem_formada(),
            r.hash_anterior() == hash_zero(),
            r.fila().len() == 0,
            r.total() == 0,
    {
        CamadaProcessamento {
            processador: ProcessadorTransacao::new(),
            rotacao: GerenciadorRotacao::new(),
            estado: GerenciadorEstado::new(),
            hash_cadeia_anterior: hash_zero_vec(),
        }
    }

    /// Replaces the rotating queue by `nos`, head first.
    pub fn inicializar_fila(&mut self, nos: Vec<String>)
        requires
            old(self).bem_formada(),
        ensures
            final(self).bem_formada(),
            final(self).fila() == Seq::new(nos@.len(), |i: int| nos@[i]@),
            final(self).hash_anterior() == old(self).hash_anterior(),
            final(self).total() == old(self).total(),
    {
        self.rotacao.inicializar_fila(nos);
    }

    /// The head of `fila` applies `transacao` at `agora`; the result says
    /// what the validators are to vote on. With no node in the queue
    /// nothing happens. The committed chain hash and the rotation stay as
    /// they are until the round commits. The counter counts every
    /// transaction that passed the structure check, also one that then
    /// fails for want of a timestamp text; the states change only on
    /// success.
    pub fn processar_transacoes(
        &mut self,
        fila: &FilaOrdenada,
        transacao: &Transacao,
        agora: Instante,
    ) -> (r: Result<Option<TransacaoProcessada>, Erro>)
        requires
            old(self).bem_formada(),
        ensures
            final(self).bem_formada(),
            final(self).hash_anterior() == old(self).hash_anterior(),
            final(self).fila() == old(self).fila(),
            fila.nos@.len() == 0 ==> (r matches Ok(None)) && final(self).total() == old(self).total(),
            fila.nos@.len() > 0 && !transacao_estruturada(transacao@, agora) ==> {
                &&& r == Err::<Option<TransacaoProcessada>, Erro>(Erro::TransacaoInvalida)
                &&& final(self).total() == old(self).total()
            },
            fila.nos@.len() > 0 && transacao_estruturada(transacao@, agora) ==> final(self).total()
                == contada(old(self).total()),
            !(r matches Ok(Some(_))) ==> final(self).estados() == old(self).estados(),
            fila.nos@.len() > 0 && transacao_estruturada(transacao@, agora) ==> match publicada(
                transacao@,
                fila.nos@[0].id@,
                agora,
            ) {
                Some(t) => r matches Ok(Some(p)) && {
                    &&& p.transacao@ == t
                    &&& p.processador_id@ == fila.nos@[0].id@
                    &&& hash_transacao(t) == Some(p.hash_transacao@)
                    &&& p.hash_cadeia@ == hash_cadeia_de(
                        p.hash_transacao@,
                        old(self).hash_anterior(),
                    )
                    &&& final(self).tem_estado(t.id)
                    &&& final(self).estado_de(t.id) == estado_deixado(
                        t,
                        p.processador_id@,
                        p.hash_cadeia@,
                    )
                },
                None => r == Err::<Option<TransacaoProcessada>, Erro>(Erro::TimestampSemTexto),
            },
    {
        if fila.nos.len() == 0 {
            return Ok(None);
        }
        let processador_id = fila.nos[0].id.clone();
        let processada = match self.processador.processar(
            transacao,
            processador_id.as_str(),
            agora,
        ) {
            Ok(t) => t,
            Err(e) => {
                return Err(e);
            },
        };
        let hash_transacao = match processada.calcular_hash() {
            Some(h) => h,
            None => {
                return Err(Erro::TimestampSemTexto);
            },
        };
        let hash_cadeia = calcular_hash(
            concatenar(hash_transacao.as_slice(), self.hash_cadeia_anterior.as_slice()).as_slice(),
        );
        self.estado.atualizar_estado(
            &processada,
            processador_id.as_str(),
            copiar_bytes(&hash_cadeia),
        );
        Ok(
            Some(
                TransacaoProcessada {
                    transacao: processada,
                    hash_transacao,
                    hash_cadeia,
                    processador_id,
                },
            ),
        )
    }

    /// Commits a round: `hash_cadeia` becomes the committed chain hash, and
    /// the queue rotates.
    pub fn confirmar_rodada(&mut self, hash_cadeia: Vec<u8>)
        requires
            old(self).bem_formada(),
        ensures
            final(self).bem_formada(),
            final(self).hash_anterior() == hash_cadeia@,
            final(self).fila() == rotacionada(old(self).fila()),
            final(self).total() == old(self).total(),
    {
        self.hash_cadeia_anterior = hash_cadeia;
        self.rotacao.rotacionar_fila();
    }

    /// The chain hash committed last.
    pub fn obter_hash_cadeia_anterior(&self) -> (r: Vec<u8>)
        ensures
            r@ == self.hash_anterior(),
    {
        copiar_bytes(&self.hash_cadeia_anterior)
    }

    /// The node that processes next.
    pub fn obter_proximo_processador(&self) -> (r: Option<String>)
        ensures
            r is Some <==> self.fila().len() > 0,
            r matches Some(id) ==> id@ == self.fila()[0],
    {
        self.rotacao.obter_proximo_processador()
    }

    pub fn obter_total_transacoes(&self) -> (r: u64)
        ensures
            r == self.total(),
    {
        self.processador.obter_total_transacoes()
    }
}

} // verus!
