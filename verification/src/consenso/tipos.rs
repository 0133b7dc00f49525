//! Shared data types of the consensus round and the domain hash.

use vstd::prelude::*;
use crate::codificacao::{
    cod_bytes, cod_texto, cod_u64, escrever_bytes, escrever_texto, escrever_u64,
};
use crate::tempo::{texto_iso8601, tem_texto_garantido, Instante};

verus! {

/// Length in bytes of every digest.
pub const TAMANHO_HASH: usize = 32;

/// The SHA-256 digest of a byte string.
pub uninterp spec fn sha256(dados: Seq<u8>) -> Seq<u8>;

/// The all-zero digest that stands for "no predecessor" and "no leaves".
pub open spec fn hash_zero() -> Seq<u8> {
    Seq::new(TAMANHO_HASH as nat, |i: int| 0u8)
}

/// The UTF-8 bytes of a text.
pub open spec fn bytes_de_texto(texto: Seq<char>) -> Seq<u8> {
    vstd::utf8::encode_utf8(texto)
}

/// Texts with the same UTF-8 bytes are the same text.
pub proof fn lema_bytes_de_texto_injetiva(a: Seq<char>, b: Seq<char>)
    requires
        bytes_de_texto(a) == bytes_de_texto(b),
    ensures
        a == b,
{
    vstd::utf8::encode_utf8_decode_utf8(a);
    vstd::utf8::encode_utf8_decode_utf8(b);
}

/// Domain hash `H`: calls `sha2::Sha256::digest`.
///
/// Trusted: the result is the SHA-256 digest of `dados`, which is 32 bytes
/// long.
#[verifier::external_body]
pub fn calcular_hash(dados: &[u8]) -> (r: Vec<u8>)
    ensures
        r@ == sha256(dados@),
        r@.len() == TAMANHO_HASH,
{
    <sha2::Sha256 as sha2::Digest>::digest(dados).to_vec()
}

/// `a ‖ b` as a fresh vector.
pub fn concatenar(a: &[u8], b: &[u8]) -> (r: Vec<u8>)
    ensures
        r@ == a@ + b@,
{
    let mut r: Vec<u8> = Vec::new();
    r.extend_from_slice(a);
    r.extend_from_slice(b);
    assert(r@ =~= a@ + b@);
    r
}

/// Whether two byte strings are equal.
pub fn bytes_iguais(a: &[u8], b: &[u8]) -> (r: bool)
    ensures
        r == (a@ == b@),
{
    if a.len() != b.len() {
        return false;
    }
    let mut i: usize = 0;
    while i < a.len()
        invariant
            a@.len() == b@.len(),
            i <= a@.len(),
            forall|k: int| 0 <= k < i ==> a@[k] == b@[k],
        decreases a@.len() - i,
    {
        if a[i] != b[i] {
            return false;
        }
        i += 1;
    }
    assert(a@ =~= b@);
    true
}

/// A copy of a byte string.
pub fn copiar_bytes(b: &Vec<u8>) -> (r: Vec<u8>)
    ensures
        r@ == b@,
{
    let r = b.clone();
    assert(r@ =~= b@);
    r
}

/// The UTF-8 bytes of a text, as a fresh vector.
pub fn bytes_do_texto(texto: &str) -> (r: Vec<u8>)
    ensures
        r@ == bytes_de_texto(texto@),
{
    let mut r: Vec<u8> = Vec::new();
    r.extend_from_slice(texto.as_bytes());
    assert(r@ =~= bytes_de_texto(texto@));
    r
}

/// Commitment digest `H(pk ‖ nonce)`, raw concatenation.
pub fn calcular_commitment(chave_publica: &[u8], nonce: &[u8]) -> (r: Vec<u8>)
    ensures
        r@ == sha256(chave_publica@ + nonce@),
        r@.len() == TAMANHO_HASH,
{
    let dados = concatenar(chave_publica, nonce);
    calcular_hash(dados.as_slice())
}

/// Seat digest `H(pk ‖ global_seed)`, the sort key of the ordering phase.
pub fn calcular_position_hash(chave_publica: &[u8], seed_global: &[u8]) -> (r: Vec<u8>)
    ensures
        r@ == sha256(chave_publica@ + seed_global@),
        r@.len() == TAMANHO_HASH,
{
    let dados = concatenar(chave_publica, seed_global);
    calcular_hash(dados.as_slice())
}

pub struct No {
    pub id: String,
    pub chave_publica: Vec<u8>,
    pub endereco: String,
    pub ativo: bool,
}

/// What a node record holds, as mathematical values.
pub struct NoView {
    pub id: Seq<char>,
    pub chave_publica: Seq<u8>,
    pub endereco: Seq<char>,
    pub ativo: bool,
}

impl View for No {
    type V = NoView;

    open spec fn view(&self) -> NoView {
        NoView {
            id: self.id@,
            chave_publica: self.chave_publica@,
            endereco: self.endereco@,
            ativo: self.ativo,
        }
    }
}

/// The views of a list of nodes, in order.
pub open spec fn visoes_nos(nos: Seq<No>) -> Seq<NoView> {
    Seq::new(nos.len(), |i: int| nos[i]@)
}

impl No {
    /// A copy with the same contents.
    pub fn duplicar(&self) -> (r: No)
        ensures
            r@ == self@,
    {
        No {
            id: self.id.clone(),
            chave_publica: copiar_bytes(&self.chave_publica),
            endereco: self.endereco.clone(),
            ativo: self.ativo,
        }
    }
}

/// A copy of a list of nodes.
pub fn duplicar_nos(nos: &Vec<No>) -> (r: Vec<No>)
    ensures
        visoes_nos(r@) == visoes_nos(nos@),
{
    let mut r: Vec<No> = Vec::new();
    let mut i: usize = 0;
    while i < nos.len()
        invariant
            i <= nos@.len(),
            r@.len() == i,
            forall|k: int| 0 <= k < i ==> (#[trigger] r@[k])@ == nos@[k]@,
        decreases nos@.len() - i,
    {
        r.push(nos[i].duplicar());
        i += 1;
    }
    assert(visoes_nos(r@) =~= visoes_nos(nos@));
    r
}

pub struct Commitment {
    pub hash: Vec<u8>,
    pub timestamp: Instante,
    pub no_id: String,
}

/// What a commitment holds, as mathematical values.
pub struct CommitmentView {
    pub hash: Seq<u8>,
    pub timestamp: Instante,
    pub no_id: Seq<char>,
}

impl View for Commitment {
    type V = CommitmentView;

    open spec fn view(&self) -> CommitmentView {
        CommitmentView { hash: self.hash@, timestamp: self.timestamp, no_id: self.no_id@ }
    }
}

impl Commitment {
    /// A copy with the same contents.
    pub fn duplicar(&self) -> (r: Commitment)
        ensures
            r@ == self@,
    {
        Commitment {
            hash: copiar_bytes(&self.hash),
            timestamp: self.timestamp,
            no_id: self.no_id.clone(),
        }
    }
}

pub struct Reveal {
    pub chave_publica: Vec<u8>,
    pub nonce: Vec<u8>,
    pub no_id: String,
    pub timestamp: Instante,
}

/// What a reveal holds, as mathematical values.
pub struct RevealView {
    pub chave_publica: Seq<u8>,
    pub nonce: Seq<u8>,
    pub no_id: Seq<char>,
    pub timestamp: Instante,
}

impl View for Reveal {
    type V = RevealView;

    open spec fn view(&self) -> RevealView {
        RevealView {
            chave_publica: self.chave_publica@,
            nonce: self.nonce@,
            no_id: self.no_id@,
            timestamp: self.timestamp,
        }
    }
}

impl Reveal {
    /// A copy with the same contents.
    pub fn duplicar(&self) -> (r: Reveal)
        ensures
            r@ == self@,
    {
        Reveal {
            chave_publica: copiar_bytes(&self.chave_publica),
            nonce: copiar_bytes(&self.nonce),
            no_id: self.no_id.clone(),
            timestamp: self.timestamp,
        }
    }
}

pub struct FilaOrdenada {
    pub nos: Vec<No>,
    pub seed_global: Vec<u8>,
    pub timestamp: Instante,
}

impl FilaOrdenada {
    /// A copy with the same contents.
    pub fn duplicar(&self) -> (r: FilaOrdenada)
        ensures
            visoes_nos(r.nos@) == visoes_nos(self.nos@),
            r.seed_global@ == self.seed_global@,
            r.timestamp == self.timestamp,
    {
        FilaOrdenada {
            nos: duplicar_nos(&self.nos),
            seed_global: copiar_bytes(&self.seed_global),
            timestamp: self.timestamp,
        }
    }
}

pub struct ProvaInclusao {
    pub merkle_proof: Vec<Vec<u8>>,
    pub posicao: usize,
    pub merkle_root: Vec<u8>,
}

pub struct Transacao {
    pub id: String,
    pub dados: Vec<u8>,
    pub estado_anterior: Vec<u8>,
    pub estado_final: Vec<u8>,
    pub timestamp: Instante,
    pub nonce: u64,
    pub assinatura: Vec<u8>,
}

/// What a transaction holds, as mathematical values.
pub struct TransacaoView {
    pub id: Seq<char>,
    pub dados: Seq<u8>,
    pub estado_anterior: Seq<u8>,
    pub estado_final: Seq<u8>,
    pub timestamp: Instante,
    pub nonce: u64,
    pub assinatura: Seq<u8>,
}

impl View for Transacao {
    type V = TransacaoView;

    open spec fn view(&self) -> TransacaoView {
        TransacaoView {
            id: self.id@,
            dados: self.dados@,
            estado_anterior: self.estado_anterior@,
            estado_final: self.estado_final@,
            timestamp: self.timestamp,
            nonce: self.nonce,
            assinatura: self.assinatura@,
        }
    }
}

/// The views of a list of transactions, in order.
pub open spec fn visoes_transacoes(txs: Seq<Transacao>) -> Seq<TransacaoView> {
    Seq::new(txs.len(), |i: int| txs[i]@)
}

/// Canonical bytes of a transaction: its fields in declared order, integers
/// little-endian, byte strings and texts behind their length, the timestamp
/// as length-prefixed ISO-8601 text. `None` where the timestamp has no text.
pub open spec fn canonico_transacao(tx: TransacaoView) -> Option<Seq<u8>> {
    match texto_iso8601(tx.timestamp.segundos, tx.timestamp.nanos) {
        Some(t) => Some(
            cod_texto(tx.id) + cod_bytes(tx.dados) + cod_bytes(tx.estado_anterior) + cod_bytes(
                tx.estado_final,
            ) + cod_bytes(t) + cod_u64(tx.nonce) + cod_bytes(tx.assinatura),
        ),
        None => None,
    }
}

/// `H(canonical(tx))`: the transaction hash and the Merkle leaf of a block.
pub open spec fn hash_transacao(tx: TransacaoView) -> Option<Seq<u8>> {
    match canonico_transacao(tx) {
        Some(c) => Some(sha256(c)),
        None => None,
    }
}

impl Transacao {
    /// A copy with the same contents.
    pub fn duplicar(&self) -> (r: Transacao)
        ensures
            r@ == self@,
    {
        Transacao {
            id: self.id.clone(),
            dados: copiar_bytes(&self.dados),
            estado_anterior: copiar_bytes(&self.estado_anterior),
            estado_final: copiar_bytes(&self.estado_final),
            timestamp: self.timestamp,
            nonce: self.nonce,
            assinatura: copiar_bytes(&self.assinatura),
        }
    }

    /// The canonical bytes that every digest of this transaction is taken of.
    pub fn canonico(&self) -> (r: Option<Vec<u8>>)
        ensures
            r.is_some() == canonico_transacao(self@).is_some(),
            r matches Some(v) ==> canonico_transacao(self@) == Some(v@),
            tem_texto_garantido(self.timestamp.segundos, self.timestamp.nanos) ==> r.is_some(),
    {
        let texto = match self.timestamp.para_iso8601() {
            Some(t) => t,
            None => { return None; },
        };
        let mut saida: Vec<u8> = Vec::new();
        escrever_texto(&mut saida, self.id.as_str());
        escrever_bytes(&mut saida, self.dados.as_slice());
        escrever_bytes(&mut saida, self.estado_anterior.as_slice());
        escrever_bytes(&mut saida, self.estado_final.as_slice());
        escrever_bytes(&mut saida, texto.as_slice());
        escrever_u64(&mut saida, self.nonce);
        escrever_bytes(&mut saida, self.assinatura.as_slice());
        assert(saida@ =~= canonico_transacao(self@).unwrap());
        Some(saida)
    }

    /// `H(canonical(tx))`.
    pub fn calcular_hash(&self) -> (r: Option<Vec<u8>>)
        ensures
            r.is_some() == hash_transacao(self@).is_some(),
            r matches Some(v) ==> hash_transacao(self@) == Some(v@) && v@.len() == TAMANHO_HASH,
            tem_texto_garantido(self.timestamp.segundos, self.timestamp.nanos) ==> r.is_some(),
    {
        match self.canonico() {
            Some(c) => Some(calcular_hash(c.as_slice())),
            None => None,
        }
    }
}

/// A copy of a list of transactions.
pub fn duplicar_transacoes(txs: &Vec<Transacao>) -> (r: Vec<Transacao>)
    ensures
        visoes_transacoes(r@) == visoes_transacoes(txs@),
{
    let mut r: Vec<Transacao> = Vec::new();
    let mut i: usize = 0;
    while i < txs.len()
        invariant
            i <= txs@.len(),
            r@.len() == i,
            forall|k: int| 0 <= k < i ==> (#[trigger] r@[k])@ == txs@[k]@,
        decreases txs@.len() - i,
    {
        r.push(txs[i].duplicar());
        i += 1;
    }
    assert(visoes_transacoes(r@) =~= visoes_transacoes(txs@));
    r
}

pub struct ValidacaoConsenso {
    pub hash_transacao: Vec<u8>,
    pub hash_cadeia: Vec<u8>,
    pub validador_id: String,
    pub assinatura: Vec<u8>,
    pub timestamp: Instante,
}

/// What a vote holds, as mathematical values.
pub struct ValidacaoView {
    pub hash_transacao: Seq<u8>,
    pub hash_cadeia: Seq<u8>,
    pub validador_id: Seq<char>,
    pub assinatura: Seq<u8>,
    pub timestamp: Instante,
}

impl View for ValidacaoConsenso {
    type V = ValidacaoView;

    open spec fn view(&self) -> ValidacaoView {
        ValidacaoView {
            hash_transacao: self.hash_transacao@,
            hash_cadeia: self.hash_cadeia@,
            validador_id: self.validador_id@,
            assinatura: self.assinatura@,
            timestamp: self.timestamp,
        }
    }
}

/// The views of a list of votes, in order.
pub open spec fn visoes_votos(votos: Seq<ValidacaoConsenso>) -> Seq<ValidacaoView> {
    Seq::new(votos.len(), |i: int| votos[i]@)
}

impl ValidacaoConsenso {
    /// A copy with the same contents.
    pub fn duplicar(&self) -> (r: ValidacaoConsenso)
        ensures
            r@ == self@,
    {
        ValidacaoConsenso {
            hash_transacao: copiar_bytes(&self.hash_transacao),
            hash_cadeia: copiar_bytes(&self.hash_cadeia),
            validador_id: self.validador_id.clone(),
            assinatura: copiar_bytes(&self.assinatura),
            timestamp: self.timestamp,
        }
    }
}

/// A copy of a list of votes.
pub fn duplicar_votos(votos: &Vec<ValidacaoConsenso>) -> (r: Vec<ValidacaoConsenso>)
    ensures
        visoes_votos(r@) == visoes_votos(votos@),
{
    let mut r: Vec<ValidacaoConsenso> = Vec::new();
    let mut i: usize = 0;
    while i < votos.len()
        invariant
            i <= votos@.len(),
            r@.len() == i,
            forall|k: int| 0 <= k < i ==> (#[trigger] r@[k])@ == votos@[k]@,
        decreases votos@.len() - i,
    {
        r.push(votos[i].duplicar());
        i += 1;
    }
    assert(visoes_votos(r@) =~= visoes_votos(votos@));
    r
}

} // verus!
