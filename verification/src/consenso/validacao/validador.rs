//! Casting and checking a vote.

use vstd::prelude::*;
use crate::consenso::tipos::{
    bytes_de_texto, bytes_iguais, calcular_hash, concatenar, hash_transacao, sha256, Transacao,
    ValidacaoConsenso, ValidacaoView, TAMANHO_HASH,
};
use crate::erro::Erro;
use crate::tempo::Instante;

verus! {

/// How far from the clock a vote may be stamped, in seconds: ten minutes.
pub const JANELA_VALIDACAO: i64 = 600;

/// The chain hash: `H(tx_hash ‖ prev_chain_hash)`.
pub open spec fn hash_cadeia_de(hash_transacao: Seq<u8>, hash_anterior: Seq<u8>) -> Seq<u8> {
    sha256(hash_transacao + hash_anterior)
}

/// The signature of a vote: `H(tx_hash ‖ chain_hash ‖ validator_id)`.
pub open spec fn assinatura_voto(
    hash_transacao: Seq<u8>,
    hash_cadeia: Seq<u8>,
    validador_id: Seq<char>,
) -> Seq<u8> {
    sha256(hash_transacao + hash_cadeia + bytes_de_texto(validador_id))
}

/// Whether a vote is accepted at `agora`: its signature matches, its
/// timestamp is within ten minutes of the clock on either side, and both
/// hashes are 32 bytes long.
pub open spec fn voto_valido(v: ValidacaoView, agora: Instante) -> bool {
    &&& v.assinatura == assinatura_voto(v.hash_transacao, v.hash_cadeia, v.validador_id)
    &&& !v.timestamp.antes_de(agora.deslocado(-(JANELA_VALIDACAO as int)))
    &&& !agora.deslocado(JANELA_VALIDACAO as int).antes_de(v.timestamp)
    &&& v.hash_transacao.len() == TAMANHO_HASH
    &&& v.hash_cadeia.len() == TAMANHO_HASH
}

/// The vote of validator `validador_id` on a transaction with hash `h`
/// after chain hash `hash_anterior`, cast at `agora`.
pub open spec fn voto_de(
    h: Seq<u8>,
    hash_anterior: Seq<u8>,
    validador_id: Seq<char>,
    agora: Instante,
) -> ValidacaoView {
    let hash_cadeia = hash_cadeia_de(h, hash_anterior);
    ValidacaoView {
        hash_transacao: h,
        hash_cadeia,
        validador_id,
        assinatura: assinatura_voto(h, hash_cadeia, validador_id),
        timestamp: agora,
    }
}

pub struct ValidadorDistribuido {
    id_validador: String,
}

impl ValidadorDistribuido {
    /// The id under which this validator votes.
    pub closed spec fn id(&self) -> Seq<char> {
        self.id_validador@
    }

    /// The validator of the local node.
    pub fn new() -> (r: ValidadorDistribuido)
        ensures
            r.id() == "validador_local"@,
    {
        ValidadorDistribuido { id_validador: "validador_local".to_owned() }
    }

    /// A validator that votes under `id_validador`.
    pub fn com_id(id_validador: String) -> (r: ValidadorDistribuido)
        ensures
            r.id() == id_validador@,
    {
        ValidadorDistribuido { id_validador }
    }

    /// Recomputes the transaction hash and the chain hash and casts the vote
    /// on them. Fails where the transaction has no hash, and where its
    /// previous or final state is empty.
    pub fn validar_transacao(
        &self,
        transacao: &Transacao,
        hash_cadeia_anterior: &[u8],
        agora: Instante,
    ) -> (r: Result<ValidacaoConsenso, Erro>)
        ensures
            match hash_transacao(transacao@) {
                None => r matches Err(e) && e == Erro::TimestampSemTexto,
                Some(h) => if transacao@.estado_anterior.len() == 0 || transacao@.estado_final.len()
                    == 0 {
                    r matches Err(e) && e == Erro::TransacaoInvalida
                } else {
                    r matches Ok(v) && v@ == voto_de(h, hash_cadeia_anterior@, self.id(), agora)
                        && voto_valido(v@, agora)
                },
            },
    {
        let hash_transacao = match transacao.calcular_hash() {
            Some(h) => h,
            None => {
                return Err(Erro::TimestampSemTexto);
            },
        };
        let hash_cadeia = self.calcular_hash_cadeia(
            hash_transacao.as_slice(),
            hash_cadeia_anterior,
        );
        if transacao.estado_anterior.len() == 0 || transacao.estado_final.len() == 0 {
            return Err(Erro::TransacaoInvalida);
        }
        let assinatura = self.assinar_validacao(hash_transacao.as_slice(), hash_cadeia.as_slice());
        Ok(
            ValidacaoConsenso {
                hash_transacao,
                hash_cadeia,
                validador_id: self.id_validador.clone(),
                assinatura,
                timestamp: agora,
            },
        )
    }

    /// Whether `validacao` is accepted at `agora`.
    pub fn verificar_validacao(&self, validacao: &ValidacaoConsenso, agora: Instante) -> (r: bool)
        ensures
            r == voto_valido(validacao@, agora),
    {
        let dados = concatenar(
            concatenar(
                validacao.hash_transacao.as_slice(),
                validacao.hash_cadeia.as_slice(),
            ).as_slice(),
            validacao.validador_id.as_str().as_bytes(),
        );
        let esperada = calcular_hash(dados.as_slice());
        if !bytes_iguais(esperada.as_slice(), validacao.assinatura.as_slice()) {
            return false;
        }
        let limite = agora.menos_segundos(JANELA_VALIDACAO);
        if validacao.timestamp.anterior_a(&limite) {
            return false;
        }
        if agora.mais_segundos(JANELA_VALIDACAO).anterior_a(&validacao.timestamp) {
            return false;
        }
        validacao.hash_transacao.len() == TAMANHO_HASH && validacao.hash_cadeia.len()
            == TAMANHO_HASH
    }

    /// `H(tx_hash ‖ prev_chain_hash)`.
    pub fn calcular_hash_cadeia(&self, hash_transacao: &[u8], hash_anterior: &[u8]) -> (r: Vec<u8>)
        ensures
            r@ == hash_cadeia_de(hash_transacao@, hash_anterior@),
            r@.len() == TAMANHO_HASH,
    {
        let dados = concatenar(hash_transacao, hash_anterior);
        calcular_hash(dados.as_slice())
    }

    /// `H(tx_hash ‖ chain_hash ‖ validator_id)` under this validator's id.
    pub fn assinar_validacao(&self, hash_transacao: &[u8], hash_cadeia: &[u8]) -> (r: Vec<u8>)
        ensures
            r@ == assinatura_voto(hash_transacao@, hash_cadeia@, self.id()),
            r@.len() == TAMANHO_HASH,
    {
        let dados = concatenar(
            concatenar(hash_transacao, hash_cadeia).as_slice(),
            self.id_validador.as_str().as_bytes(),
        );
        calcular_hash(dados.as_slice())
    }
}

} // verus!
