//! Applying a transaction.

use vstd::prelude::*;
use crate::consenso::tipos::{
    bytes_de_texto, calcular_hash, canonico_transacao, concatenar, sha256, Transacao, TransacaoView, TAMANHO_HASH,
};
use crate::erro::Erro;
use crate::tempo::Instante;

verus! {

/// How far in the future a transaction may be stamped, in seconds: five
/// minutes.
pub const TOLERANCIA_FUTURO: i64 = 300;

/// Whether a transaction has the structure that processing asks for at
/// `agora`: id, payload and signature not empty, and a timestamp that is
/// not later than five minutes from now.
pub open spec fn transacao_estruturada(tx: TransacaoView, agora: Instante) -> bool {
    &&& tx.id.len() > 0
    &&& tx.dados.len() > 0
    &&& tx.assinatura.len() > 0
    &&& !agora.deslocado(TOLERANCIA_FUTURO as int).antes_de(tx.timestamp)
}

/// The state that a payload leads to: `H(prev_state ‖ payload)`.
pub open spec fn novo_estado(estado_anterior: Seq<u8>, dados: Seq<u8>) -> Seq<u8> {
    sha256(estado_anterior + dados)
}

/// The transaction as the processor leaves it before signing: stamped with
/// `agora`, with its new state.
pub open spec fn aplicada(tx: TransacaoView, agora: Instante) -> TransacaoView {
    TransacaoView {
        timestamp: agora,
        estado_final: novo_estado(tx.estado_anterior, tx.dados),
        ..tx
    }
}

/// The signature of the processor: `H(processor_id ‖ canonical(tx))` over
/// the applied transaction.
pub open spec fn assinatura_processador(processador_id: Seq<char>, canonico: Seq<u8>) -> Seq<u8> {
    sha256(bytes_de_texto(processador_id) + canonico)
}

/// Whether a transaction has the structure that processing asks for.
pub fn validar_estrutura_transacao(transacao: &Transacao, agora: Instante) -> (r: bool)
    ensures
        r == transacao_estruturada(transacao@, agora),
{
    if transacao.id.as_str().is_empty() {
        return false;
    }
    if transacao.dados.len() == 0 || transacao.assinatura.len() == 0 {
        return false;
    }
    let limite = agora.mais_segundos(TOLERANCIA_FUTURO);
    !limite.anterior_a(&transacao.timestamp)
}

/// The counter after one more transaction: it starts again at zero behind
/// the largest `u64`.
pub open spec fn contada(n: u64) -> u64 {
    if n == u64::MAX {
        0
    } else {
        (n + 1) as u64
    }
}

pub struct ProcessadorTransacao {
    contador_transacoes: u64,
}

impl ProcessadorTransacao {
    /// How many transactions passed the structure check, modulo 2^64.
    pub closed spec fn total(&self) -> u64 {
        self.contador_transacoes
    }

    pub fn new() -> (r: ProcessadorTransacao)
        ensures
            r.total() == 0,
    {
        ProcessadorTransacao { contador_transacoes: 0 }
    }

    /// Applies `transacao` as node `processador_id` at `agora`: checks its
    /// structure, stamps it, computes its new state, and signs it. Fails
    /// where the structure check fails, and where `agora` has no ISO-8601
    /// text. The counter counts every transaction that passed the check.
    pub fn processar(&mut self, transacao: &Transacao, processador_id: &str, agora: Instante) -> (r:
        Result<Transacao, Erro>)
        ensures
            !transacao_estruturada(transacao@, agora) ==> {
                &&& r == Err::<Transacao, Erro>(Erro::TransacaoInvalida)
                &&& final(self).total() == old(self).total()
            },
            transacao_estruturada(transacao@, agora) ==> {
                &&& final(self).total() == contada(old(self).total())
                &&& match canonico_transacao(aplicada(transacao@, agora)) {
                    Some(c) => r matches Ok(t) && t@ == TransacaoView {
                        assinatura: assinatura_processador(processador_id@, c),
                        ..aplicada(transacao@, agora)
                    },
                    None => r == Err::<Transacao, Erro>(Erro::TimestampSemTexto),
                }
            },
    {
        if !validar_estrutura_transacao(transacao, agora) {
            return Err(Erro::TransacaoInvalida);
        }
        let mut processada = transacao.duplicar();
        processada.timestamp = agora;
        self.contador_transacoes = self.contador_transacoes.wrapping_add(1);
        processada.estado_final = self.calcular_novo_estado(
            transacao.estado_anterior.as_slice(),
            transacao.dados.as_slice(),
        );
        assert(processada@ == aplicada(transacao@, agora));
        let assinatura = match self.assinar_transacao(&processada, processador_id) {
            Some(a) => a,
            None => {
                return Err(Erro::TimestampSemTexto);
            },
        };
        processada.assinatura = assinatura;
        Ok(processada)
    }

    /// `H(prev_state ‖ payload)`.
    pub fn calcular_novo_estado(&self, estado_anterior: &[u8], dados: &[u8]) -> (r: Vec<u8>)
        ensures
            r@ == novo_estado(estado_anterior@, dados@),
            r@.len() == TAMANHO_HASH,
    {
        let junto = concatenar(estado_anterior, dados);
        calcular_hash(junto.as_slice())
    }

    /// `H(processor_id ‖ canonical(tx))`, `None` where the transaction has
    /// no canonical bytes.
    pub fn assinar_transacao(&self, transacao: &Transacao, processador_id: &str) -> (r: Option<
        Vec<u8>,
    >)
        ensures
            match canonico_transacao(transacao@) {
                Some(c) => r matches Some(a) && a@ == assinatura_processador(processador_id@, c),
                None => r is None,
            },
    {
        match transacao.canonico() {
            Some(c) => {
                let junto = concatenar(processador_id.as_bytes(), c.as_slice());
                Some(calcular_hash(junto.as_slice()))
            },
            None => None,
        }
    }

    pub fn obter_total_transacoes(&self) -> (r: u64)
        ensures
            r == self.total(),
    {
        self.contador_transacoes
    }
}

} // verus!
