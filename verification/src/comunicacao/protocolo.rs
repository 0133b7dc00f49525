//! Wire messages: every message carries `H(sender ‖ payload)` as its
//! signature, and a receiver drops a message whose signature does not match.

use vstd::prelude::*;
use crate::blockchain::persistencia::{decimal, digitos_decimais};
use crate::codificacao::{lema_ascii_e_utf8, so_ascii, texto_de_bytes};
use crate::consenso::tipos::{
    bytes_de_texto, bytes_iguais, calcular_hash, concatenar, sha256, TAMANHO_HASH,
};
use crate::tempo::Instante;

verus! {

#[derive(Clone, Copy, Debug, PartialEq, Eq, Structural)]
pub enum TipoMensagem {
    Commitment,
    Reveal,
    Validacao,
    Transacao,
}

pub struct Mensagem {
    pub id: String,
    pub tipo: TipoMensagem,
    pub remetente: String,
    pub timestamp: Instante,
    pub dados: Vec<u8>,
    pub assinatura: Vec<u8>,
}

pub struct RespostaMensagem {
    pub id_mensagem: String,
    pub sucesso: bool,
    pub erro: Option<String>,
    pub timestamp: Instante,
}

/// The signature of a message: `H(sender ‖ payload)`.
pub open spec fn assinatura_mensagem(remetente: Seq<char>, dados: Seq<u8>) -> Seq<u8> {
    sha256(bytes_de_texto(remetente) + dados)
}

/// ASCII `msg_`.
pub open spec fn prefixo_id() -> Seq<u8> {
    seq![109u8, 115u8, 103u8, 95u8]
}

/// ASCII `_`.
pub const SUBLINHADO: u8 = 95;

/// The bytes of a message id: `msg_`, the nanoseconds since the epoch in
/// decimal, `_`, and a drawn number in decimal.
pub open spec fn id_de_mensagem(nanos_epoch: u64, sorteio: u32) -> Seq<u8> {
    prefixo_id() + decimal(nanos_epoch as nat) + seq![SUBLINHADO] + decimal(sorteio as nat)
}

/// Decimal digits are ASCII.
pub proof fn lema_decimal_ascii(n: nat)
    ensures
        so_ascii(decimal(n)),
    decreases n,
{
    if n >= 10 {
        lema_decimal_ascii(n / 10);
    }
}

/// The id of a message made at `nanos_epoch` nanoseconds since the epoch
/// with the drawn number `sorteio`.
pub fn gerar_id_mensagem(nanos_epoch: u64, sorteio: u32) -> (r: String)
    ensures
        bytes_de_texto(r@) == id_de_mensagem(nanos_epoch, sorteio),
{
    let mut bytes: Vec<u8> = vec![109u8, 115u8, 103u8, 95u8];
    assert(bytes@ =~= prefixo_id());
    let tempo = digitos_decimais(nanos_epoch);
    bytes.extend_from_slice(tempo.as_slice());
    bytes.push(SUBLINHADO);
    let numero = digitos_decimais(sorteio as u64);
    bytes.extend_from_slice(numero.as_slice());
    assert(bytes@ =~= id_de_mensagem(nanos_epoch, sorteio));
    proof {
        lema_decimal_ascii(nanos_epoch as nat);
        lema_decimal_ascii(sorteio as nat);
        lema_ascii_e_utf8(bytes@);
    }
    match texto_de_bytes(bytes) {
        Some(t) => t,
        None => String::new(),
    }
}

impl Mensagem {
    /// A message from `remetente` with payload `dados`, signed.
    pub fn nova(
        id: String,
        tipo: TipoMensagem,
        remetente: String,
        dados: Vec<u8>,
        agora: Instante,
    ) -> (r: Mensagem)
        ensures
            r.id@ == id@,
            r.tipo == tipo,
            r.remetente@ == remetente@,
            r.timestamp == agora,
            r.dados@ == dados@,
            r.assinatura@ == assinatura_mensagem(remetente@, dados@),
    {
        let assinatura = Mensagem::calcular_assinatura(remetente.as_str(), dados.as_slice());
        Mensagem { id, tipo, remetente, timestamp: agora, dados, assinatura }
    }

    /// `H(sender ‖ payload)`.
    pub fn calcular_assinatura(remetente: &str, dados: &[u8]) -> (r: Vec<u8>)
        ensures
            r@ == assinatura_mensagem(remetente@, dados@),
            r@.len() == TAMANHO_HASH,
    {
        let conteudo = concatenar(remetente.as_bytes(), dados);
        calcular_hash(conteudo.as_slice())
    }

    /// Whether the signature of the message matches its sender and
    /// payload.
    pub fn verificar_assinatura(&self) -> (r: bool)
        ensures
            r == (self.assinatura@ == assinatura_mensagem(self.remetente@, self.dados@)),
    {
        let esperada = Mensagem::calcular_assinatura(
            self.remetente.as_str(),
            self.dados.as_slice(),
        );
        bytes_iguais(esperada.as_slice(), self.assinatura.as_slice())
    }
}

} // verus!
