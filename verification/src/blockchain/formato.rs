//! The binary layout of a block: every field in declared order, integers
//! little-endian, byte strings and texts behind a `u64` length, instants as
//! seconds and nanoseconds, the transaction list behind its count.

use vstd::prelude::*;
use vstd::utf8::encode_utf8;
use crate::blockchain::bloco::{Bloco, BlocoView};
use crate::codificacao::{
    cod_bytes, cod_instante, cod_texto, cod_u32, cod_u64, escrever_bytes, escrever_instante, escrever_u32, escrever_u64, lema_ler_cod_bytes, lema_ler_cod_instante, lema_ler_cod_texto, lema_ler_cod_u32, lema_ler_cod_u64, ler_bytes, ler_bytes_em, ler_instante, ler_instante_em, ler_texto, ler_texto_em, ler_u32, ler_u32_em, ler_u64, ler_u64_em,
};
use crate::consenso::tipos::{visoes_transacoes, Transacao, TransacaoView};

verus! {

/// The bytes of one transaction.
pub open spec fn cod_transacao(tx: TransacaoView) -> Seq<u8> {
    cod_texto(tx.id) + cod_bytes(tx.dados) + cod_bytes(tx.estado_anterior) + cod_bytes(
        tx.estado_final,
    ) + cod_instante(tx.timestamp) + cod_u64(tx.nonce) + cod_bytes(tx.assinatura)
}

/// The bytes of the transactions one after another, without their count.
pub open spec fn cod_lista(txs: Seq<TransacaoView>) -> Seq<u8>
    decreases txs.len(),
{
    if txs.len() == 0 {
        Seq::empty()
    } else {
        cod_transacao(txs[0]) + cod_lista(txs.drop_first())
    }
}

/// The bytes of the fields before the transaction list: number, previous
/// hash, Merkle root, timestamp, mining nonce.
pub open spec fn cod_inicio_bloco(b: BlocoView) -> Seq<u8> {
    cod_u64(b.numero) + cod_bytes(b.hash_anterior) + cod_bytes(b.merkle_root) + cod_instante(
        b.timestamp,
    ) + cod_u64(b.nonce)
}

/// The bytes of the fields behind the transaction list: block hash, miner
/// signature, miner id, difficulty.
pub open spec fn cod_fim_bloco(b: BlocoView) -> Seq<u8> {
    cod_bytes(b.hash_bloco) + cod_bytes(b.assinatura_minerador) + cod_texto(b.minerador_id)
        + cod_u32(b.dificuldade)
}

/// The bytes of a block.
pub open spec fn cod_bloco(b: BlocoView) -> Seq<u8> {
    cod_inicio_bloco(b) + cod_u64(b.transacoes.len() as u64) + cod_lista(b.transacoes)
        + cod_fim_bloco(b)
}

/// Whether every length in the transaction fits its `u64` prefix.
pub open spec fn transacao_cabe(tx: TransacaoView) -> bool {
    &&& encode_utf8(tx.id).len() <= u64::MAX
    &&& tx.dados.len() <= u64::MAX
    &&& tx.estado_anterior.len() <= u64::MAX
    &&& tx.estado_final.len() <= u64::MAX
    &&& tx.assinatura.len() <= u64::MAX
}

pub open spec fn lista_cabe(txs: Seq<TransacaoView>) -> bool {
    forall|i: int| 0 <= i < txs.len() ==> transacao_cabe(#[trigger] txs[i])
}

/// Whether every length in the block fits its `u64` prefix.
pub open spec fn bloco_cabe(b: BlocoView) -> bool {
    &&& b.hash_anterior.len() <= u64::MAX
    &&& b.merkle_root.len() <= u64::MAX
    &&& b.transacoes.len() <= u64::MAX
    &&& lista_cabe(b.transacoes)
    &&& b.hash_bloco.len() <= u64::MAX
    &&& b.assinatura_minerador.len() <= u64::MAX
    &&& encode_utf8(b.minerador_id).len() <= u64::MAX
}

/// Reads one transaction from the front of `s`.
#[verifier::opaque]
pub open spec fn ler_transacao(s: Seq<u8>) -> Option<(TransacaoView, Seq<u8>)> {
    match ler_texto(s) {
        Some((id, r1)) => match ler_bytes(r1) {
            Some((dados, r2)) => match ler_bytes(r2) {
                Some((estado_anterior, r3)) => match ler_bytes(r3) {
                    Some((estado_final, r4)) => match ler_instante(r4) {
                        Some((timestamp, r5)) => match ler_u64(r5) {
                            Some((nonce, r6)) => match ler_bytes(r6) {
                                Some((assinatura, r7)) => Some(
                                    (
                                        TransacaoView {
                                            id,
                                            dados,
                                            estado_anterior,
                                            estado_final,
                                            timestamp,
                                            nonce,
                                            assinatura,
                                        },
                                        r7,
                                    ),
                                ),
                                None => None,
                            },
                            None => None,
                        },
                        None => None,
                    },
                    None => None,
                },
                None => None,
            },
            None => None,
        },
        None => None,
    }
}

/// Reads `n` transactions from the front of `s`.
pub open spec fn ler_lista(s: Seq<u8>, n: nat) -> Option<(Seq<TransacaoView>, Seq<u8>)>
    decreases n,
{
    if n == 0 {
        Some((Seq::empty(), s))
    } else {
        match ler_transacao(s) {
            Some((tx, r1)) => match ler_lista(r1, (n - 1) as nat) {
                Some((txs, r2)) => Some((seq![tx] + txs, r2)),
                None => None,
            },
            None => None,
        }
    }
}

/// Reads the fields of a block that stand before the transaction list.
#[verifier::opaque]
pub open spec fn ler_inicio_bloco(s: Seq<u8>) -> Option<
    ((u64, Seq<u8>, Seq<u8>, crate::tempo::Instante, u64), Seq<u8>),
> {
    match ler_u64(s) {
        Some((numero, r1)) => match ler_bytes(r1) {
            Some((hash_anterior, r2)) => match ler_bytes(r2) {
                Some((merkle_root, r3)) => match ler_instante(r3) {
                    Some((timestamp, r4)) => match ler_u64(r4) {
                        Some((nonce, r5)) => Some(
                            ((numero, hash_anterior, merkle_root, timestamp, nonce), r5),
                        ),
                        None => None,
                    },
                    None => None,
                },
                None => None,
            },
            None => None,
        },
        None => None,
    }
}

/// Reads the fields of a block that stand behind the transaction list.
#[verifier::opaque]
pub open spec fn ler_fim_bloco(s: Seq<u8>) -> Option<
    ((Seq<u8>, Seq<u8>, Seq<char>, u32), Seq<u8>),
> {
    match ler_bytes(s) {
        Some((hash_bloco, r1)) => match ler_bytes(r1) {
            Some((assinatura, r2)) => match ler_texto(r2) {
                Some((minerador_id, r3)) => match ler_u32(r3) {
                    Some((dificuldade, r4)) => Some(
                        ((hash_bloco, assinatura, minerador_id, dificuldade), r4),
                    ),
                    None => None,
                },
                None => None,
            },
            None => None,
        },
        None => None,
    }
}

/// Reads one block from the front of `s`.
pub open spec fn ler_bloco(s: Seq<u8>) -> Option<(BlocoView, Seq<u8>)> {
    match ler_inicio_bloco(s) {
        Some((inicio, r1)) => match ler_u64(r1) {
            Some((n, r2)) => match ler_lista(r2, n as nat) {
                Some((transacoes, r3)) => match ler_fim_bloco(r3) {
                    Some((fim, r4)) => Some(
                        (
                            BlocoView {
                                numero: inicio.0,
                                hash_anterior: inicio.1,
                                merkle_root: inicio.2,
                                timestamp: inicio.3,
                                nonce: inicio.4,
                                transacoes,
                                hash_bloco: fim.0,
                                assinatura_minerador: fim.1,
                                minerador_id: fim.2,
                                dificuldade: fim.3,
                            },
                            r4,
                        ),
                    ),
                    None => None,
                },
                None => None,
            },
            None => None,
        },
        None => None,
    }
}

/// The block that `s` encodes: `s` must hold one block and nothing behind
/// it.
pub open spec fn decodificar_bloco(s: Seq<u8>) -> Option<BlocoView> {
    match ler_bloco(s) {
        Some((b, resto)) => if resto.len() == 0 {
            Some(b)
        } else {
            None
        },
        None => None,
    }
}

pub proof fn lema_ler_cod_transacao(tx: TransacaoView, resto: Seq<u8>)
    requires
        transacao_cabe(tx),
    ensures
        ler_transacao(cod_transacao(tx) + resto) == Some((tx, resto)),
{
    reveal(ler_transacao);
    let r7 = resto;
    let r6 = cod_bytes(tx.assinatura) + r7;
    let r5 = cod_u64(tx.nonce) + r6;
    let r4 = cod_instante(tx.timestamp) + r5;
    let r3 = cod_bytes(tx.estado_final) + r4;
    let r2 = cod_bytes(tx.estado_anterior) + r3;
    let r1 = cod_bytes(tx.dados) + r2;
    assert(cod_transacao(tx) + resto =~= cod_texto(tx.id) + r1);
    lema_ler_cod_texto(tx.id, r1);
    lema_ler_cod_bytes(tx.dados, r2);
    lema_ler_cod_bytes(tx.estado_anterior, r3);
    lema_ler_cod_bytes(tx.estado_final, r4);
    lema_ler_cod_instante(tx.timestamp, r5);
    lema_ler_cod_u64(tx.nonce, r6);
    lema_ler_cod_bytes(tx.assinatura, r7);
}

pub proof fn lema_ler_cod_lista(txs: Seq<TransacaoView>, resto: Seq<u8>)
    requires
        lista_cabe(txs),
    ensures
        ler_lista(cod_lista(txs) + resto, txs.len()) == Some((txs, resto)),
    decreases txs.len(),
{
    if txs.len() == 0 {
        assert(cod_lista(txs) + resto =~= resto);
        assert(txs =~= Seq::<TransacaoView>::empty());
    } else {
        let cauda = txs.drop_first();
        let r1 = cod_lista(cauda) + resto;
        assert(cod_lista(txs) + resto =~= cod_transacao(txs[0]) + r1);
        lema_ler_cod_transacao(txs[0], r1);
        assert(lista_cabe(cauda)) by {
            assert forall|i: int| 0 <= i < cauda.len() implies transacao_cabe(
                #[trigger] cauda[i],
            ) by {
                assert(cauda[i] == txs[i + 1]);
            }
        }
        lema_ler_cod_lista(cauda, resto);
        assert(seq![txs[0]] + cauda =~= txs);
    }
}

/// The encodings of two lists, one behind the other, encode the joined
/// list.
pub proof fn lema_cod_lista_junta(a: Seq<TransacaoView>, b: Seq<TransacaoView>)
    ensures
        cod_lista(a + b) == cod_lista(a) + cod_lista(b),
    decreases a.len(),
{
    if a.len() == 0 {
        assert(a + b =~= b);
        assert(cod_lista(a) + cod_lista(b) =~= cod_lista(b));
    } else {
        lema_cod_lista_junta(a.drop_first(), b);
        assert((a + b).drop_first() =~= a.drop_first() + b);
        assert((a + b)[0] == a[0]);
        assert(cod_lista(a + b) =~= cod_lista(a) + cod_lista(b));
    }
}

pub proof fn lema_ler_cod_inicio(b: BlocoView, resto: Seq<u8>)
    requires
        bloco_cabe(b),
    ensures
        ler_inicio_bloco(cod_inicio_bloco(b) + resto) == Some(
            ((b.numero, b.hash_anterior, b.merkle_root, b.timestamp, b.nonce), resto),
        ),
{
    reveal(ler_inicio_bloco);
    let i4 = cod_u64(b.nonce) + resto;
    let i3 = cod_instante(b.timestamp) + i4;
    let i2 = cod_bytes(b.merkle_root) + i3;
    let i1 = cod_bytes(b.hash_anterior) + i2;
    assert(cod_inicio_bloco(b) + resto =~= cod_u64(b.numero) + i1);
    lema_ler_cod_u64(b.numero, i1);
    lema_ler_cod_bytes(b.hash_anterior, i2);
    lema_ler_cod_bytes(b.merkle_root, i3);
    lema_ler_cod_instante(b.timestamp, i4);
    lema_ler_cod_u64(b.nonce, resto);
}

pub proof fn lema_ler_cod_fim(b: BlocoView, resto: Seq<u8>)
    requires
        bloco_cabe(b),
    ensures
        ler_fim_bloco(cod_fim_bloco(b) + resto) == Some(
            ((b.hash_bloco, b.assinatura_minerador, b.minerador_id, b.dificuldade), resto),
        ),
{
    reveal(ler_fim_bloco);
    let f3 = cod_u32(b.dificuldade) + resto;
    let f2 = cod_texto(b.minerador_id) + f3;
    let f1 = cod_bytes(b.assinatura_minerador) + f2;
    assert(cod_fim_bloco(b) + resto =~= cod_bytes(b.hash_bloco) + f1);
    lema_ler_cod_bytes(b.hash_bloco, f1);
    lema_ler_cod_bytes(b.assinatura_minerador, f2);
    lema_ler_cod_texto(b.minerador_id, f3);
    lema_ler_cod_u32(b.dificuldade, resto);
}

/// Reading an encoded block gives the block back and leaves what stood
/// behind it.
pub proof fn lema_ler_cod_bloco(b: BlocoView, resto: Seq<u8>)
    requires
        bloco_cabe(b),
    ensures
        ler_bloco(cod_bloco(b) + resto) == Some((b, resto)),
{
    let r3 = cod_fim_bloco(b) + resto;
    let r2 = cod_lista(b.transacoes) + r3;
    let r1 = cod_u64(b.transacoes.len() as u64) + r2;
    assert(cod_bloco(b) + resto =~= cod_inicio_bloco(b) + r1);
    lema_ler_cod_inicio(b, r1);
    lema_ler_cod_u64(b.transacoes.len() as u64, r2);
    lema_ler_cod_lista(b.transacoes, r3);
    lema_ler_cod_fim(b, resto);
}

/// Decoding an encoded block gives the block back.
pub proof fn lema_decodificar_cod_bloco(b: BlocoView)
    requires
        bloco_cabe(b),
    ensures
        decodificar_bloco(cod_bloco(b)) == Some(b),
{
    lema_ler_cod_bloco(b, Seq::empty());
    assert(cod_bloco(b) + Seq::<u8>::empty() =~= cod_bloco(b));
}

/// What a size-prefixed LZ4 block expands to, `None` where it is malformed.
pub uninterp spec fn lz4_descomprimido(quadro: Seq<u8>) -> Option<Seq<u8>>;

/// The largest payload that is framed, in bytes.
pub const CARGA_MAXIMA: usize = 15_000_000;

/// The largest frame that is expanded, in bytes. It is above the longest
/// frame of a payload of `CARGA_MAXIMA` bytes, and below the length from
/// which a malformed frame could overflow the expander's length counter.
pub const QUADRO_MAXIMO: usize = 16_800_000;

/// The most bytes that the frame of a payload of `n` bytes can have: the
/// size prefix, the compressor's slack, and a tenth more than the payload.
pub open spec fn maior_quadro(n: nat) -> nat {
    24 + n * 110 / 100
}

/// The payload size that a frame declares: its first four bytes, least
/// significant first. `None` for a frame shorter than that.
pub open spec fn tamanho_declarado(quadro: Seq<u8>) -> Option<u32> {
    match ler_u32(quadro) {
        Some((n, _)) => Some(n),
        None => None,
    }
}

/// Whether a frame declares a payload of `n` bytes.
pub open spec fn declara(quadro: Seq<u8>, n: nat) -> bool {
    tamanho_declarado(quadro) matches Some(m) && m == n
}

/// Whether a frame is expanded at all: it is not above `QUADRO_MAXIMO`, and
/// it declares a payload of at most `CARGA_MAXIMA` bytes.
pub open spec fn quadro_aceito(quadro: Seq<u8>) -> bool {
    quadro.len() <= QUADRO_MAXIMO && (tamanho_declarado(quadro) matches Some(n) && n
        <= CARGA_MAXIMA)
}

/// Tests a frame before it is expanded.
pub fn quadro_e_aceito(quadro: &[u8]) -> (r: bool)
    ensures
        r == quadro_aceito(quadro@),
{
    if quadro.len() > QUADRO_MAXIMO {
        return false;
    }
    assert(quadro@.skip(0) =~= quadro@);
    match ler_u32_em(quadro, 0) {
        Some((n, _)) => n as usize <= CARGA_MAXIMA,
        None => false,
    }
}

#[verifier::external_type_specification]
#[verifier::external_body]
pub struct ExDecompressError(lz4_flex::block::DecompressError);

/// Calls `lz4_flex::compress_prepend_size`.
///
/// Trusted: the frame starts with the length of `dados` as four bytes, least
/// significant first; it is no longer than the buffer that the compressor
/// sets up for it; and it expands back to `dados`. Which bytes follow the
/// length is not claimed: the compressor's match finder depends on the
/// machine's word size and byte order, so two builds may write different
/// frames of one payload.
#[verifier::external_body]
pub(crate) fn comprimir_lz4(dados: &[u8]) -> (r: Vec<u8>)
    requires
        dados@.len() <= CARGA_MAXIMA,
    ensures
        declara(r@, dados@.len()),
        r@.len() <= maior_quadro(dados@.len()),
        lz4_descomprimido(r@) == Some(dados@),
{
    lz4_flex::compress_prepend_size(dados)
}

/// Calls `lz4_flex::decompress_size_prepended`.
///
/// Trusted: the call succeeds exactly on well-formed frames and yields what
/// the frame expands to. Only accepted frames are handed over. The expander
/// sets up a buffer of the declared size before it reads on, so a few bytes
/// could ask for four gigabytes; and a run of some sixteen million `0xFF`
/// length bytes overflows its length counter.
#[verifier::external_body]
pub(crate) fn descomprimir_lz4(quadro: &[u8]) -> (r: Result<
    Vec<u8>,
    lz4_flex::block::DecompressError,
>)
    requires
        quadro_aceito(quadro@),
    ensures
        r is Ok <==> lz4_descomprimido(quadro@).is_some(),
        r matches Ok(v) ==> lz4_descomprimido(quadro@) == Some(v@),
{
    lz4_flex::decompress_size_prepended(quadro)
}

/// The block that a stored frame holds: the frame is accepted, it expands,
/// and the payload decodes.
pub open spec fn decodificar_quadro(quadro: Seq<u8>) -> Option<BlocoView> {
    if !quadro_aceito(quadro) {
        None
    } else {
        match lz4_descomprimido(quadro) {
            Some(carga) => decodificar_bloco(carga),
            None => None,
        }
    }
}

/// Appends the bytes of `tx`.
pub fn escrever_transacao(saida: &mut Vec<u8>, tx: &Transacao)
    ensures
        final(saida)@ == old(saida)@ + cod_transacao(tx@),
        transacao_cabe(tx@),
{
    let id = tx.id.as_str().as_bytes();
    // Each length is a `usize`, so it fits its prefix.
    let ghost comprimentos = (
        id.len(),
        tx.dados.len(),
        tx.estado_anterior.len(),
        tx.estado_final.len(),
        tx.assinatura.len(),
    );
    escrever_bytes(saida, id);
    escrever_bytes(saida, tx.dados.as_slice());
    escrever_bytes(saida, tx.estado_anterior.as_slice());
    escrever_bytes(saida, tx.estado_final.as_slice());
    escrever_instante(saida, &tx.timestamp);
    escrever_u64(saida, tx.nonce);
    escrever_bytes(saida, tx.assinatura.as_slice());
    assert(saida@ =~= old(saida)@ + cod_transacao(tx@));
}

/// Appends the bytes of each transaction, in order.
pub fn escrever_lista(saida: &mut Vec<u8>, txs: &Vec<Transacao>)
    ensures
        final(saida)@ == old(saida)@ + cod_lista(visoes_transacoes(txs@)),
        lista_cabe(visoes_transacoes(txs@)),
{
    let ghost todas = visoes_transacoes(txs@);
    let mut i: usize = 0;
    assert(todas.take(0) =~= Seq::<TransacaoView>::empty());
    assert(saida@ =~= old(saida)@ + cod_lista(todas.take(0)));
    while i < txs.len()
        invariant
            i <= txs@.len(),
            todas == visoes_transacoes(txs@),
            saida@ == old(saida)@ + cod_lista(todas.take(i as int)),
            lista_cabe(todas.take(i as int)),
        decreases txs@.len() - i,
    {
        let ghost antes = saida@;
        escrever_transacao(saida, &txs[i]);
        proof {
            let feitas = todas.take(i as int);
            let uma = seq![todas[i as int]];
            assert(todas.take(i + 1) =~= feitas + uma);
            lema_cod_lista_junta(feitas, uma);
            assert(uma.drop_first() =~= Seq::<TransacaoView>::empty());
            assert(cod_lista(uma.drop_first()) =~= Seq::<u8>::empty());
            assert(cod_lista(uma) =~= cod_transacao(uma[0]) + cod_lista(uma.drop_first()));
            assert(cod_lista(uma) =~= cod_transacao(todas[i as int]));
            assert(saida@ =~= old(saida)@ + cod_lista(todas.take(i + 1)));
        }
        i += 1;
    }
    assert(todas.take(txs@.len() as int) =~= todas);
}

/// The bytes of a block.
pub fn escrever_bloco(b: &Bloco) -> (r: Vec<u8>)
    ensures
        r@ == cod_bloco(b@),
        bloco_cabe(b@),
{
    let mut saida: Vec<u8> = Vec::new();
    escrever_u64(&mut saida, b.numero);
    escrever_bytes(&mut saida, b.hash_anterior.as_slice());
    escrever_bytes(&mut saida, b.merkle_root.as_slice());
    escrever_instante(&mut saida, &b.timestamp);
    escrever_u64(&mut saida, b.nonce);
    assert(saida@ =~= cod_inicio_bloco(b@));
    escrever_u64(&mut saida, b.transacoes.len() as u64);
    escrever_lista(&mut saida, &b.transacoes);
    let ghost meio = saida@;
    escrever_bytes(&mut saida, b.hash_bloco.as_slice());
    escrever_bytes(&mut saida, b.assinatura_minerador.as_slice());
    let minerador = b.minerador_id.as_str().as_bytes();
    // Each length is a `usize`, so it fits its prefix.
    let ghost comprimentos = (
        minerador.len(),
        b.hash_anterior.len(),
        b.merkle_root.len(),
        b.transacoes.len(),
        b.hash_bloco.len(),
        b.assinatura_minerador.len(),
    );
    escrever_bytes(&mut saida, minerador);
    escrever_u32(&mut saida, b.dificuldade);
    assert(saida@ =~= meio + cod_fim_bloco(b@));
    saida
}

/// Reads one transaction at `pos`.
pub fn ler_transacao_em(dados: &[u8], pos: usize) -> (r: Option<(Transacao, usize)>)
    requires
        pos <= dados@.len(),
    ensures
        match ler_transacao(dados@.skip(pos as int)) {
            Some((v, resto)) => r matches Some((t, p)) && t@ == v && p <= dados@.len()
                && dados@.skip(p as int) == resto,
            None => r is None,
        },
{
    reveal(ler_transacao);
    let (id, p1) = match ler_texto_em(dados, pos) {
        Some(par) => par,
        None => { return None; },
    };
    let (conteudo, p2) = match ler_bytes_em(dados, p1) {
        Some(par) => par,
        None => { return None; },
    };
    let (estado_anterior, p3) = match ler_bytes_em(dados, p2) {
        Some(par) => par,
        None => { return None; },
    };
    let (estado_final, p4) = match ler_bytes_em(dados, p3) {
        Some(par) => par,
        None => { return None; },
    };
    let (timestamp, p5) = match ler_instante_em(dados, p4) {
        Some(par) => par,
        None => { return None; },
    };
    let (nonce, p6) = match ler_u64_em(dados, p5) {
        Some(par) => par,
        None => { return None; },
    };
    let (assinatura, p7) = match ler_bytes_em(dados, p6) {
        Some(par) => par,
        None => { return None; },
    };
    Some(
        (
            Transacao {
                id,
                dados: conteudo,
                estado_anterior,
                estado_final,
                timestamp,
                nonce,
                assinatura,
            },
            p7,
        ),
    )
}

/// What reading `n` transactions from `s` gives where `lidas` were read
/// already and `n` are still to come.
pub open spec fn ler_lista_apos(lidas: Seq<TransacaoView>, s: Seq<u8>, n: nat) -> Option<
    (Seq<TransacaoView>, Seq<u8>),
> {
    match ler_lista(s, n) {
        Some((txs, resto)) => Some((lidas + txs, resto)),
        None => None,
    }
}

/// Reads `n` transactions at `pos`.
pub fn ler_lista_em(dados: &[u8], pos: usize, n: u64) -> (r: Option<(Vec<Transacao>, usize)>)
    requires
        pos <= dados@.len(),
    ensures
        match ler_lista(dados@.skip(pos as int), n as nat) {
            Some((v, resto)) => r matches Some((t, p)) && visoes_transacoes(t@) == v && p
                <= dados@.len() && dados@.skip(p as int) == resto,
            None => r is None,
        },
{
    let mut lidas: Vec<Transacao> = Vec::new();
    let mut atual = pos;
    let mut i: u64 = 0;
    let ghost alvo = ler_lista(dados@.skip(pos as int), n as nat);
    proof {
        match alvo {
            Some((txs, resto)) => {
                assert(visoes_transacoes(lidas@) + txs =~= txs);
            },
            None => {},
        }
    }
    while i < n
        invariant
            i <= n,
            atual <= dados@.len(),
            alvo == ler_lista(dados@.skip(pos as int), n as nat),
            alvo == ler_lista_apos(
                visoes_transacoes(lidas@),
                dados@.skip(atual as int),
                (n - i) as nat,
            ),
        decreases n - i,
    {
        let ghost feitas = visoes_transacoes(lidas@);
        let ghost s = dados@.skip(atual as int);
        let (tx, proximo) = match ler_transacao_em(dados, atual) {
            Some(par) => par,
            None => {
                return None;
            },
        };
        proof {
            let r1 = dados@.skip(proximo as int);
            assert(ler_transacao(s) == Some((tx@, r1)));
            match ler_lista(r1, (n - i - 1) as nat) {
                Some((txs, r2)) => {
                    assert(ler_lista(s, (n - i) as nat) == Some((seq![tx@] + txs, r2)));
                    assert(feitas + (seq![tx@] + txs) =~= (feitas + seq![tx@]) + txs);
                },
                None => {
                    assert(ler_lista(s, (n - i) as nat) is None);
                },
            }
        }
        lidas.push(tx);
        assert(visoes_transacoes(lidas@) =~= feitas + seq![tx@]);
        atual = proximo;
        i += 1;
    }
    proof {
        assert(ler_lista(dados@.skip(atual as int), 0) == Some(
            (Seq::<TransacaoView>::empty(), dados@.skip(atual as int)),
        ));
        assert(visoes_transacoes(lidas@) + Seq::<TransacaoView>::empty() =~= visoes_transacoes(
            lidas@,
        ));
    }
    Some((lidas, atual))
}

/// Decodes one block that fills `dados` exactly.
pub fn ler_bloco_de(dados: &[u8]) -> (r: Option<Bloco>)
    ensures
        match decodificar_bloco(dados@) {
            Some(v) => r matches Some(b) && b@ == v,
            None => r is None,
        },
{
    reveal(ler_inicio_bloco);
    reveal(ler_fim_bloco);
    assert(dados@.skip(0) =~= dados@);
    let (numero, p1) = match ler_u64_em(dados, 0) {
        Some(par) => par,
        None => { return None; },
    };
    let (hash_anterior, p2) = match ler_bytes_em(dados, p1) {
        Some(par) => par,
        None => { return None; },
    };
    let (merkle_root, p3) = match ler_bytes_em(dados, p2) {
        Some(par) => par,
        None => { return None; },
    };
    let (timestamp, p4) = match ler_instante_em(dados, p3) {
        Some(par) => par,
        None => { return None; },
    };
    let (nonce, p5) = match ler_u64_em(dados, p4) {
        Some(par) => par,
        None => { return None; },
    };
    let (n, p6) = match ler_u64_em(dados, p5) {
        Some(par) => par,
        None => { return None; },
    };
    let (transacoes, p7) = match ler_lista_em(dados, p6, n) {
        Some(par) => par,
        None => { return None; },
    };
    let (hash_bloco, p8) = match ler_bytes_em(dados, p7) {
        Some(par) => par,
        None => { return None; },
    };
    let (assinatura_minerador, p9) = match ler_bytes_em(dados, p8) {
        Some(par) => par,
        None => { return None; },
    };
    let (minerador_id, p10) = match ler_texto_em(dados, p9) {
        Some(par) => par,
        None => { return None; },
    };
    let (dificuldade, p11) = match ler_u32_em(dados, p10) {
        Some(par) => par,
        None => { return None; },
    };
    if p11 != dados.len() {
        return None;
    }
    Some(
        Bloco {
            numero,
            hash_anterior,
            merkle_root,
            timestamp,
            nonce,
            transacoes,
            hash_bloco,
            assinatura_minerador,
            minerador_id,
            dificuldade,
        },
    )
}

} // verus!
