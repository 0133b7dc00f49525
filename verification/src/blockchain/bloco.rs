//! Blocks: canonical header hash, Merkle root of the transactions, miner
//! signature and proof-of-work.

use vstd::prelude::*;
use crate::blockchain::formato::{
    cod_bloco, comprimir_lz4, decodificar_quadro, descomprimir_lz4, escrever_bloco,
    lema_decodificar_cod_bloco, ler_bloco_de, quadro_aceito, quadro_e_aceito, CARGA_MAXIMA,
};
use crate::codificacao::{cod_bytes, cod_u32, cod_u64, escrever_bytes, escrever_u32, escrever_u64};
use crate::consenso::merkle::arvore::{
    hash_zero_vec, nivel_de_hashes, raiz_merkle, subir_nivel, visao_nivel,
};
use crate::consenso::tipos::{
    bytes_de_texto, bytes_iguais, calcular_hash, concatenar, copiar_bytes, duplicar_transacoes,
    hash_transacao, hash_zero, sha256,
    visoes_transacoes, Transacao, TransacaoView, TAMANHO_HASH,
};
use crate::erro::Erro;
use crate::tempo::{tem_texto_garantido, texto_iso8601, Instante};

verus! {

pub struct Bloco {
    pub numero: u64,
    pub hash_anterior: Vec<u8>,
    pub merkle_root: Vec<u8>,
    pub timestamp: Instante,
    pub nonce: u64,
    pub transacoes: Vec<Transacao>,
    pub hash_bloco: Vec<u8>,
    pub assinatura_minerador: Vec<u8>,
    pub minerador_id: String,
    pub dificuldade: u32,
}

/// What a block holds, as mathematical values.
pub struct BlocoView {
    pub numero: u64,
    pub hash_anterior: Seq<u8>,
    pub merkle_root: Seq<u8>,
    pub timestamp: Instante,
    pub nonce: u64,
    pub transacoes: Seq<TransacaoView>,
    pub hash_bloco: Seq<u8>,
    pub assinatura_minerador: Seq<u8>,
    pub minerador_id: Seq<char>,
    pub dificuldade: u32,
}

impl View for Bloco {
    type V = BlocoView;

    open spec fn view(&self) -> BlocoView {
        BlocoView {
            numero: self.numero,
            hash_anterior: self.hash_anterior@,
            merkle_root: self.merkle_root@,
            timestamp: self.timestamp,
            nonce: self.nonce,
            transacoes: visoes_transacoes(self.transacoes@),
            hash_bloco: self.hash_bloco@,
            assinatura_minerador: self.assinatura_minerador@,
            minerador_id: self.minerador_id@,
            dificuldade: self.dificuldade,
        }
    }
}

/// The fields of a block that its hash covers.
pub struct CabecalhoBloco {
    pub numero: u64,
    pub hash_anterior: Vec<u8>,
    pub merkle_root: Vec<u8>,
    pub timestamp: Instante,
    pub nonce: u64,
    pub dificuldade: u32,
}

/// Canonical bytes of a header: number, previous hash, Merkle root,
/// timestamp, mining nonce and difficulty in that order; integers
/// little-endian, byte strings behind their length, the timestamp as
/// length-prefixed ISO-8601 text. `None` where the timestamp has no text.
pub open spec fn canonico_cabecalho(
    numero: u64,
    hash_anterior: Seq<u8>,
    merkle_root: Seq<u8>,
    timestamp: Instante,
    nonce: u64,
    dificuldade: u32,
) -> Option<Seq<u8>> {
    match texto_iso8601(timestamp.segundos, timestamp.nanos) {
        Some(t) => Some(
            cod_u64(numero) + cod_bytes(hash_anterior) + cod_bytes(merkle_root) + cod_bytes(t)
                + cod_u64(nonce) + cod_u32(dificuldade),
        ),
        None => None,
    }
}

/// `H(canonical(header(B)))`.
pub open spec fn hash_do_bloco(b: BlocoView) -> Option<Seq<u8>> {
    match canonico_cabecalho(
        b.numero,
        b.hash_anterior,
        b.merkle_root,
        b.timestamp,
        b.nonce,
        b.dificuldade,
    ) {
        Some(c) => Some(sha256(c)),
        None => None,
    }
}

/// Miner signature: `H(block_hash ‖ miner_id)`.
pub open spec fn assinatura_de(hash_bloco: Seq<u8>, minerador_id: Seq<char>) -> Seq<u8> {
    sha256(hash_bloco + bytes_de_texto(minerador_id))
}

/// Whether every transaction of the list has a hash.
pub open spec fn todas_com_hash(txs: Seq<TransacaoView>) -> bool {
    forall|i: int| 0 <= i < txs.len() ==> (#[trigger] hash_transacao(txs[i])).is_some()
}

/// The Merkle leaves of a block: the hash of each transaction.
pub open spec fn folhas_transacoes(txs: Seq<TransacaoView>) -> Seq<Seq<u8>> {
    Seq::new(txs.len(), |i: int| hash_transacao(txs[i]).unwrap())
}

/// `merkle(transactions)`: the root over the transaction hashes, an unpaired
/// tail hashed with itself; the zero digest for no transactions. `None`
/// where some transaction has no hash.
pub open spec fn raiz_transacoes(txs: Seq<TransacaoView>) -> Option<Seq<u8>> {
    if todas_com_hash(txs) {
        Some(raiz_merkle(folhas_transacoes(txs), true))
    } else {
        None
    }
}

/// Structural validity: the stored block hash, Merkle root and miner
/// signature all equal their recomputation.
pub open spec fn estrutura_valida(b: BlocoView) -> bool {
    &&& hash_do_bloco(b) == Some(b.hash_bloco)
    &&& raiz_transacoes(b.transacoes) == Some(b.merkle_root)
    &&& assinatura_de(b.hash_bloco, b.minerador_id) == b.assinatura_minerador
}

/// The first part of the structure that does not match: the block hash,
/// then the Merkle root, then the miner signature.
pub open spec fn falha_de_estrutura(b: BlocoView) -> Option<Erro> {
    if hash_do_bloco(b) != Some(b.hash_bloco) {
        Some(Erro::EstruturaBlocoInvalida)
    } else if raiz_transacoes(b.transacoes) != Some(b.merkle_root) {
        Some(Erro::MerkleDivergente)
    } else if assinatura_de(b.hash_bloco, b.minerador_id) != b.assinatura_minerador {
        Some(Erro::AssinaturaInvalida)
    } else {
        None
    }
}

/// ASCII code of the lowercase hex digit of `n`.
pub open spec fn digito_hex(n: int) -> u8 {
    if n < 10 {
        (48 + n) as u8
    } else {
        (87 + n) as u8
    }
}

/// The lowercase hex text of `b`, two ASCII digits per byte, high nibble
/// first.
pub open spec fn hex_de(b: Seq<u8>) -> Seq<u8> {
    Seq::new(
        2 * b.len(),
        |i: int|
            if i % 2 == 0 {
                digito_hex(b[i / 2] as int / 16)
            } else {
                digito_hex(b[i / 2] as int % 16)
            },
    )
}

/// ASCII `0`.
pub const ZERO_ASCII: u8 = 48;

/// The difficulty predicate: the hex text of `hash` begins with
/// `dificuldade` zero characters. Difficulty 0 always passes.
pub open spec fn cumpre_dificuldade(hash: Seq<u8>, dificuldade: u32) -> bool {
    &&& dificuldade <= 2 * hash.len()
    &&& forall|i: int| 0 <= i < dificuldade ==> #[trigger] hex_de(hash)[i] == ZERO_ASCII
}

/// Calls `hex::encode` and hands out the text's bytes.
///
/// Trusted: the text has two lowercase hex digits per input byte, the high
/// nibble first.
#[verifier::external_body]
pub(crate) fn hex_minusculo(dados: &[u8]) -> (r: Vec<u8>)
    ensures
        r@ == hex_de(dados@),
{
    hex::encode(dados).into_bytes()
}

/// `b` with another mining nonce.
pub open spec fn com_nonce(b: BlocoView, nonce: u64) -> BlocoView {
    BlocoView { nonce, ..b }
}

/// Whether mining nonce `nonce` gives `b` a hash that meets its difficulty.
pub open spec fn prova_de_trabalho(b: BlocoView, nonce: u64) -> bool {
    match hash_do_bloco(com_nonce(b, nonce)) {
        Some(h) => cumpre_dificuldade(h, b.dificuldade),
        None => false,
    }
}

/// How many mining nonces are tried for a genesis block and for the next
/// block of a chain.
pub const TENTATIVAS_MINERACAO: u64 = 1_000_000;

/// The genesis block before mining: number 0, zero previous hash, no
/// transactions, miner `genesis`, difficulty 1.
pub open spec fn genese_sem_minerar(timestamp: Instante) -> BlocoView {
    BlocoView {
        numero: 0,
        hash_anterior: hash_zero(),
        merkle_root: hash_zero(),
        timestamp,
        nonce: 0,
        transacoes: Seq::empty(),
        hash_bloco: Seq::empty(),
        assinatura_minerador: Seq::empty(),
        minerador_id: "genesis"@,
        dificuldade: 1,
    }
}

/// What mining leaves behind where nonce `nonce` was the first to meet the
/// difficulty: that nonce, its hash, and a fresh miner signature.
pub open spec fn minerado_com(b: BlocoView, nonce: u64) -> BlocoView {
    let h = hash_do_bloco(com_nonce(b, nonce)).unwrap();
    BlocoView {
        nonce,
        hash_bloco: h,
        assinatura_minerador: assinatura_de(h, b.minerador_id),
        ..b
    }
}

/// What mining leaves behind where nonce `nonce` was the last one tried and
/// failed: that nonce and its hash, the miner signature untouched.
pub open spec fn tentado_com(b: BlocoView, nonce: u64) -> BlocoView {
    BlocoView { nonce, hash_bloco: hash_do_bloco(com_nonce(b, nonce)).unwrap(), ..b }
}

/// Whether no nonce below `limite` gives `b` a proof of work.
pub open spec fn sem_prova_abaixo(b: BlocoView, limite: u64) -> bool {
    forall|n: u64| n < limite ==> !#[trigger] prova_de_trabalho(b, n)
}

/// `merkle([]) == 0×32`.
pub proof fn lei_raiz_sem_transacoes()
    ensures
        raiz_transacoes(Seq::<TransacaoView>::empty()) == Some(hash_zero()),
{
}

/// A structurally valid block carries the hash of its canonical header and
/// the Merkle root of its transactions.
pub proof fn lei_bloco_valido(b: BlocoView)
    requires
        estrutura_valida(b),
    ensures
        hash_do_bloco(b) == Some(b.hash_bloco),
        raiz_transacoes(b.transacoes) == Some(b.merkle_root),
{
}

impl CabecalhoBloco {
    /// The canonical bytes of the header.
    pub fn canonico(&self) -> (r: Option<Vec<u8>>)
        ensures
            r.is_some() == texto_iso8601(self.timestamp.segundos, self.timestamp.nanos).is_some(),
            r matches Some(v) ==> canonico_cabecalho(
                self.numero,
                self.hash_anterior@,
                self.merkle_root@,
                self.timestamp,
                self.nonce,
                self.dificuldade,
            ) == Some(v@),
            tem_texto_garantido(self.timestamp.segundos, self.timestamp.nanos) ==> r.is_some(),
    {
        let texto = match self.timestamp.para_iso8601() {
            Some(t) => t,
            None => { return None; },
        };
        let mut saida: Vec<u8> = Vec::new();
        escrever_u64(&mut saida, self.numero);
        escrever_bytes(&mut saida, self.hash_anterior.as_slice());
        escrever_bytes(&mut saida, self.merkle_root.as_slice());
        escrever_bytes(&mut saida, texto.as_slice());
        escrever_u64(&mut saida, self.nonce);
        escrever_u32(&mut saida, self.dificuldade);
        assert(saida@ =~= cod_u64(self.numero) + cod_bytes(self.hash_anterior@) + cod_bytes(
            self.merkle_root@,
        ) + cod_bytes(texto@) + cod_u64(self.nonce) + cod_u32(self.dificuldade));
        Some(saida)
    }
}

impl Bloco {
    /// A copy with the same contents.
    pub fn duplicar(&self) -> (r: Bloco)
        ensures
            r@ == self@,
    {
        Bloco {
            numero: self.numero,
            hash_anterior: copiar_bytes(&self.hash_anterior),
            merkle_root: copiar_bytes(&self.merkle_root),
            timestamp: self.timestamp,
            nonce: self.nonce,
            transacoes: duplicar_transacoes(&self.transacoes),
            hash_bloco: copiar_bytes(&self.hash_bloco),
            assinatura_minerador: copiar_bytes(&self.assinatura_minerador),
            minerador_id: self.minerador_id.clone(),
            dificuldade: self.dificuldade,
        }
    }

    /// The header of the block.
    pub fn cabecalho(&self) -> (r: CabecalhoBloco)
        ensures
            r.numero == self.numero,
            r.hash_anterior@ == self.hash_anterior@,
            r.merkle_root@ == self.merkle_root@,
            r.timestamp == self.timestamp,
            r.nonce == self.nonce,
            r.dificuldade == self.dificuldade,
    {
        CabecalhoBloco {
            numero: self.numero,
            hash_anterior: copiar_bytes(&self.hash_anterior),
            merkle_root: copiar_bytes(&self.merkle_root),
            timestamp: self.timestamp,
            nonce: self.nonce,
            dificuldade: self.dificuldade,
        }
    }

    /// Builds a block over `transacoes` at nonce 0, with its Merkle root,
    /// block hash and miner signature. Fails exactly where `timestamp` or a
    /// transaction's timestamp has no ISO-8601 text.
    pub fn new(
        numero: u64,
        hash_anterior: Vec<u8>,
        transacoes: Vec<Transacao>,
        minerador_id: String,
        dificuldade: u32,
        timestamp: Instante,
    ) -> (r: Result<Bloco, Erro>)
        ensures
            r is Ok <==> raiz_transacoes(visoes_transacoes(transacoes@)).is_some() && texto_iso8601(
                timestamp.segundos,
                timestamp.nanos,
            ).is_some(),
            r matches Err(e) ==> e == Erro::TimestampSemTexto,
            r matches Ok(b) ==> {
                &&& b.numero == numero
                &&& b.hash_anterior@ == hash_anterior@
                &&& b.transacoes@ == transacoes@
                &&& b.minerador_id@ == minerador_id@
                &&& b.dificuldade == dificuldade
                &&& b.timestamp == timestamp
                &&& b.nonce == 0
                &&& estrutura_valida(b@)
            },
    {
        let merkle_root = match Bloco::calcular_merkle_root(transacoes.as_slice()) {
            Ok(m) => m,
            Err(e) => { return Err(e); },
        };
        let mut bloco = Bloco {
            numero,
            hash_anterior,
            merkle_root,
            timestamp,
            nonce: 0,
            transacoes,
            hash_bloco: Vec::new(),
            assinatura_minerador: Vec::new(),
            minerador_id,
            dificuldade,
        };
        let hash = match bloco.calcular_hash() {
            Ok(h) => h,
            Err(e) => { return Err(e); },
        };
        bloco.hash_bloco = hash;
        let assinatura = bloco.assinar_bloco();
        bloco.assinatura_minerador = assinatura;
        Ok(bloco)
    }

    /// Builds and mines the genesis block: number 0, previous hash and
    /// Merkle root all zero, no transactions, miner `genesis`, difficulty 1.
    /// Fails where `timestamp` has no ISO-8601 text, and where none of the
    /// first `TENTATIVAS_MINERACAO` nonces meets the difficulty.
    pub fn genesis(timestamp: Instante) -> (r: Result<Bloco, Erro>)
        ensures
            match r {
                Ok(b) => {
                    &&& b.nonce < TENTATIVAS_MINERACAO
                    &&& prova_de_trabalho(genese_sem_minerar(timestamp), b.nonce)
                    &&& sem_prova_abaixo(genese_sem_minerar(timestamp), b.nonce)
                    &&& b@ == minerado_com(genese_sem_minerar(timestamp), b.nonce)
                    &&& estrutura_valida(b@)
                    &&& cumpre_dificuldade(b.hash_bloco@, b.dificuldade)
                },
                Err(e) => if texto_iso8601(timestamp.segundos, timestamp.nanos).is_some() {
                    e == Erro::DificuldadeNaoAtingida && sem_prova_abaixo(
                        genese_sem_minerar(timestamp),
                        TENTATIVAS_MINERACAO,
                    )
                } else {
                    e == Erro::TimestampSemTexto
                },
            },
    {
        let mut bloco = Bloco {
            numero: 0,
            hash_anterior: hash_zero_vec(),
            merkle_root: hash_zero_vec(),
            timestamp,
            nonce: 0,
            transacoes: Vec::new(),
            hash_bloco: Vec::new(),
            assinatura_minerador: Vec::new(),
            minerador_id: "genesis".to_owned(),
            dificuldade: 1,
        };
        assert(bloco@.transacoes =~= Seq::<TransacaoView>::empty());
        assert(bloco@ == genese_sem_minerar(timestamp));
        match bloco.minerar(TENTATIVAS_MINERACAO) {
            Ok(true) => {
                assert(todas_com_hash(bloco@.transacoes));
                assert(folhas_transacoes(bloco@.transacoes) =~= Seq::<Seq<u8>>::empty());
                Ok(bloco)
            },
            Ok(false) => Err(Erro::DificuldadeNaoAtingida),
            Err(e) => Err(e),
        }
    }

    /// Tries the mining nonces `0..max_tentativas` in order and stops at the
    /// first whose block hash meets the difficulty; the miner signature is
    /// refreshed then and only then. Fails where the timestamp has no
    /// ISO-8601 text and a nonce was to be tried.
    pub fn minerar(&mut self, max_tentativas: u64) -> (r: Result<bool, Erro>)
        ensures
            r is Err <==> max_tentativas > 0 && hash_do_bloco(old(self)@) is None,
            match r {
                Ok(true) => {
                    &&& final(self).nonce < max_tentativas
                    &&& prova_de_trabalho(old(self)@, final(self).nonce)
                    &&& sem_prova_abaixo(old(self)@, final(self).nonce)
                    &&& final(self)@ == minerado_com(old(self)@, final(self).nonce)
                    &&& cumpre_dificuldade(final(self).hash_bloco@, final(self).dificuldade)
                    &&& hash_do_bloco(final(self)@) == Some(final(self).hash_bloco@)
                    &&& raiz_transacoes(old(self)@.transacoes) == Some(old(self)@.merkle_root)
                        ==> estrutura_valida(final(self)@)
                },
                Ok(false) => {
                    &&& sem_prova_abaixo(old(self)@, max_tentativas)
                    &&& if max_tentativas == 0 {
                        final(self)@ == old(self)@
                    } else {
                        final(self)@ == tentado_com(old(self)@, (max_tentativas - 1) as u64)
                    }
                },
                Err(e) => e == Erro::TimestampSemTexto && final(self)@ == com_nonce(old(self)@, 0),
            },
    {
        let mut nonce: u64 = 0;
        while nonce < max_tentativas
            invariant
                nonce <= max_tentativas,
                sem_prova_abaixo(old(self)@, nonce),
                nonce > 0 ==> hash_do_bloco(old(self)@).is_some(),
                if nonce == 0 {
                    self@ == old(self)@
                } else {
                    self@ == tentado_com(old(self)@, (nonce - 1) as u64)
                },
            decreases max_tentativas - nonce,
        {
            self.nonce = nonce;
            assert(self@ == com_nonce(old(self)@, nonce) || (nonce > 0 && self@ == BlocoView {
                nonce,
                ..tentado_com(old(self)@, (nonce - 1) as u64)
            }));
            let hash = match self.calcular_hash() {
                Ok(h) => h,
                Err(e) => {
                    return Err(e);
                },
            };
            self.hash_bloco = hash;
            assert(self@ == tentado_com(old(self)@, nonce));
            if self.validar_dificuldade() {
                let assinatura = self.assinar_bloco();
                self.assinatura_minerador = assinatura;
                return Ok(true);
            }
            nonce += 1;
        }
        Ok(false)
    }

    /// `H(canonical(header))`; fails exactly where the timestamp has no
    /// ISO-8601 text.
    pub fn calcular_hash(&self) -> (r: Result<Vec<u8>, Erro>)
        ensures
            r is Ok <==> hash_do_bloco(self@).is_some(),
            r matches Ok(v) ==> hash_do_bloco(self@) == Some(v@) && v@.len() == TAMANHO_HASH,
            r matches Err(e) ==> e == Erro::TimestampSemTexto,
            tem_texto_garantido(self.timestamp.segundos, self.timestamp.nanos) ==> r is Ok,
    {
        match self.cabecalho().canonico() {
            Some(c) => Ok(calcular_hash(c.as_slice())),
            None => Err(Erro::TimestampSemTexto),
        }
    }

    /// The Merkle root over the hashes of `transacoes`; fails exactly where
    /// some transaction's timestamp has no ISO-8601 text.
    pub fn calcular_merkle_root(transacoes: &[Transacao]) -> (r: Result<Vec<u8>, Erro>)
        ensures
            r is Ok <==> raiz_transacoes(visoes_transacoes(transacoes@)).is_some(),
            r matches Ok(v) ==> raiz_transacoes(visoes_transacoes(transacoes@)) == Some(v@)
                && v@.len() == TAMANHO_HASH,
            r matches Err(e) ==> e == Erro::TimestampSemTexto,
    {
        let ghost txs = visoes_transacoes(transacoes@);
        let mut nivel: Vec<Vec<u8>> = Vec::new();
        let mut i: usize = 0;
        while i < transacoes.len()
            invariant
                i <= transacoes@.len(),
                txs == visoes_transacoes(transacoes@),
                nivel@.len() == i,
                forall|k: int| 0 <= k < i ==> (#[trigger] hash_transacao(txs[k])).is_some(),
                forall|k: int|
                    0 <= k < i ==> (#[trigger] nivel@[k])@ == hash_transacao(txs[k]).unwrap(),
                forall|k: int| 0 <= k < i ==> (#[trigger] nivel@[k])@.len() == TAMANHO_HASH,
            decreases transacoes@.len() - i,
        {
            assert(txs[i as int] == transacoes@[i as int]@);
            match transacoes[i].calcular_hash() {
                Some(h) => {
                    nivel.push(h);
                },
                None => {
                    assert(!todas_com_hash(txs));
                    return Err(Erro::TimestampSemTexto);
                },
            }
            i += 1;
        }
        assert(todas_com_hash(txs));
        let ghost folhas = folhas_transacoes(txs);
        assert(visao_nivel(nivel@) =~= folhas);
        if nivel.len() == 0 {
            return Ok(hash_zero_vec());
        }
        while nivel.len() > 1
            invariant
                nivel@.len() >= 1,
                nivel_de_hashes(visao_nivel(nivel@)),
                raiz_merkle(visao_nivel(nivel@), true) == raiz_merkle(folhas, true),
            decreases nivel@.len(),
        {
            let ghost abaixo = visao_nivel(nivel@);
            nivel = subir_nivel(&nivel, true);
            assert(visao_nivel(nivel@).len() == (abaixo.len() + 1) / 2);
        }
        assert(visao_nivel(nivel@)[0] == nivel@[0]@);
        Ok(copiar_bytes(&nivel[0]))
    }

    /// `H(block_hash ‖ miner_id)` over the stored block hash.
    pub fn assinar_bloco(&self) -> (r: Vec<u8>)
        ensures
            r@ == assinatura_de(self.hash_bloco@, self.minerador_id@),
            r@.len() == TAMANHO_HASH,
    {
        let dados = concatenar(self.hash_bloco.as_slice(), self.minerador_id.as_str().as_bytes());
        calcular_hash(dados.as_slice())
    }

    /// Whether the stored block hash, Merkle root and miner signature equal
    /// their recomputation.
    pub fn validar_estrutura(&self) -> (r: bool)
        ensures
            r == estrutura_valida(self@),
    {
        self.diagnosticar_estrutura().is_none()
    }

    /// The first part of the structure that does not match its
    /// recomputation, `None` for a structurally valid block.
    pub fn diagnosticar_estrutura(&self) -> (r: Option<Erro>)
        ensures
            r == falha_de_estrutura(self@),
            r is None <==> estrutura_valida(self@),
    {
        let hash_ok = match self.calcular_hash() {
            Ok(h) => bytes_iguais(h.as_slice(), self.hash_bloco.as_slice()),
            Err(_) => false,
        };
        if !hash_ok {
            return Some(Erro::EstruturaBlocoInvalida);
        }
        let raiz_ok = match Bloco::calcular_merkle_root(self.transacoes.as_slice()) {
            Ok(m) => bytes_iguais(m.as_slice(), self.merkle_root.as_slice()),
            Err(_) => false,
        };
        if !raiz_ok {
            return Some(Erro::MerkleDivergente);
        }
        let assinatura = self.assinar_bloco();
        if !bytes_iguais(assinatura.as_slice(), self.assinatura_minerador.as_slice()) {
            return Some(Erro::AssinaturaInvalida);
        }
        None
    }

    /// The stored form of the block: its binary layout as a size-prefixed
    /// LZ4 frame. Decoding the frame gives the block back, field for field.
    /// Fails exactly where the layout is longer than `CARGA_MAXIMA`.
    pub fn serializar_binario(&self) -> (r: Result<Vec<u8>, Erro>)
        ensures
            r is Ok <==> cod_bloco(self@).len() <= CARGA_MAXIMA,
            r matches Err(e) ==> e == Erro::BlocoGrandeDemais,
            r matches Ok(v) ==> quadro_aceito(v@) && decodificar_quadro(v@) == Some(self@),
    {
        let carga = escrever_bloco(self);
        if carga.len() > CARGA_MAXIMA {
            return Err(Erro::BlocoGrandeDemais);
        }
        let quadro = comprimir_lz4(carga.as_slice());
        proof {
            lema_decodificar_cod_bloco(self@);
        }
        Ok(quadro)
    }

    /// Reads a block back from its stored form. Fails exactly where the
    /// frame is not accepted (too long, or declaring too large a payload),
    /// does not expand, or holds a payload that is not one whole block.
    pub fn deserializar_binario(dados: &[u8]) -> (r: Result<Bloco, Erro>)
        ensures
            match decodificar_quadro(dados@) {
                Some(v) => r matches Ok(b) && b@ == v,
                None => r matches Err(e) && e == Erro::Decodificacao,
            },
    {
        if !quadro_e_aceito(dados) {
            return Err(Erro::Decodificacao);
        }
        let carga = match descomprimir_lz4(dados) {
            Ok(c) => c,
            Err(_) => { return Err(Erro::Decodificacao); },
        };
        match ler_bloco_de(carga.as_slice()) {
            Some(b) => Ok(b),
            None => Err(Erro::Decodificacao),
        }
    }

    /// The proof-of-work predicate at the block's declared difficulty.
    pub fn validar_dificuldade(&self) -> (r: bool)
        ensures
            r == cumpre_dificuldade(self.hash_bloco@, self.dificuldade),
    {
        let zeros = self.dificuldade as usize;
        if zeros == 0 {
            return true;
        }
        let texto = hex_minusculo(self.hash_bloco.as_slice());
        if zeros > texto.len() {
            return false;
        }
        let mut i: usize = 0;
        while i < zeros
            invariant
                i <= zeros <= texto@.len(),
                zeros == self.dificuldade,
                texto@ == hex_de(self.hash_bloco@),
                forall|k: int| 0 <= k < i ==> #[trigger] hex_de(self.hash_bloco@)[k] == ZERO_ASCII,
            decreases zeros - i,
        {
            if texto[i] != ZERO_ASCII {
                return false;
            }
            i += 1;
        }
        true
    }
}

} // verus!
