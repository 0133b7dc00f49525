//! Canonical byte encoding: little-endian integers and length-prefixed byte
//! strings, with the matching reader.
//!
//! Every composite encoding in the crate is a concatenation of these
//! primitives in field order, so one set of round-trip lemmas serves them all.

use vstd::prelude::*;
use vstd::bytes::{
    spec_u32_from_le_bytes, spec_u32_to_le_bytes, spec_u64_from_le_bytes, spec_u64_to_le_bytes,
    lemma_auto_spec_u32_to_from_le_bytes, lemma_auto_spec_u64_to_from_le_bytes, u32_from_le_bytes,
    u32_to_le_bytes, u64_from_le_bytes, u64_to_le_bytes,
};
use vstd::slice::slice_subrange;
use vstd::utf8::{decode_utf8, encode_utf8, valid_utf8};
use crate::tempo::Instante;

verus! {

/// Eight bytes, least significant first.
pub open spec fn cod_u64(x: u64) -> Seq<u8> {
    spec_u64_to_le_bytes(x)
}

/// Four bytes, least significant first.
pub open spec fn cod_u32(x: u32) -> Seq<u8> {
    spec_u32_to_le_bytes(x)
}

/// A byte string behind its length as a `u64`.
pub open spec fn cod_bytes(b: Seq<u8>) -> Seq<u8> {
    cod_u64(b.len() as u64) + b
}

/// A text as its length-prefixed UTF-8 bytes.
pub open spec fn cod_texto(t: Seq<char>) -> Seq<u8> {
    cod_bytes(encode_utf8(t))
}

/// An instant as its seconds (two's complement) and nanoseconds.
pub open spec fn cod_instante(t: Instante) -> Seq<u8> {
    cod_u64(t.segundos as u64) + cod_u32(t.nanos)
}

/// Reads a `u64` from the front of `s`; the second component is what is left.
pub open spec fn ler_u64(s: Seq<u8>) -> Option<(u64, Seq<u8>)> {
    if s.len() >= 8 {
        Some((spec_u64_from_le_bytes(s.subrange(0, 8)), s.skip(8)))
    } else {
        None
    }
}

pub open spec fn ler_u32(s: Seq<u8>) -> Option<(u32, Seq<u8>)> {
    if s.len() >= 4 {
        Some((spec_u32_from_le_bytes(s.subrange(0, 4)), s.skip(4)))
    } else {
        None
    }
}

pub open spec fn ler_bytes(s: Seq<u8>) -> Option<(Seq<u8>, Seq<u8>)> {
    match ler_u64(s) {
        Some((n, resto)) => if n <= resto.len() {
            Some((resto.take(n as int), resto.skip(n as int)))
        } else {
            None
        },
        None => None,
    }
}

pub open spec fn ler_texto(s: Seq<u8>) -> Option<(Seq<char>, Seq<u8>)> {
    match ler_bytes(s) {
        Some((b, resto)) => if valid_utf8(b) {
            Some((decode_utf8(b), resto))
        } else {
            None
        },
        None => None,
    }
}

pub open spec fn ler_instante(s: Seq<u8>) -> Option<(Instante, Seq<u8>)> {
    match ler_u64(s) {
        Some((segundos, r1)) => match ler_u32(r1) {
            Some((nanos, r2)) => Some((Instante { segundos: segundos as i64, nanos }, r2)),
            None => None,
        },
        None => None,
    }
}

pub proof fn lema_ler_cod_u64(x: u64, resto: Seq<u8>)
    ensures
        cod_u64(x).len() == 8,
        ler_u64(cod_u64(x) + resto) == Some((x, resto)),
{
    lemma_auto_spec_u64_to_from_le_bytes();
    let s = cod_u64(x) + resto;
    assert(s.subrange(0, 8) =~= cod_u64(x));
    assert(s.skip(8) =~= resto);
}

pub proof fn lema_ler_cod_u32(x: u32, resto: Seq<u8>)
    ensures
        cod_u32(x).len() == 4,
        ler_u32(cod_u32(x) + resto) == Some((x, resto)),
{
    lemma_auto_spec_u32_to_from_le_bytes();
    let s = cod_u32(x) + resto;
    assert(s.subrange(0, 4) =~= cod_u32(x));
    assert(s.skip(4) =~= resto);
}

pub proof fn lema_ler_cod_bytes(b: Seq<u8>, resto: Seq<u8>)
    requires
        b.len() <= u64::MAX,
    ensures
        cod_bytes(b).len() == 8 + b.len(),
        ler_bytes(cod_bytes(b) + resto) == Some((b, resto)),
{
    let n = b.len() as u64;
    lema_ler_cod_u64(n, b + resto);
    assert(cod_bytes(b) + resto =~= cod_u64(n) + (b + resto));
    assert((b + resto).take(n as int) =~= b);
    assert((b + resto).skip(n as int) =~= resto);
}

pub proof fn lema_ler_cod_texto(t: Seq<char>, resto: Seq<u8>)
    requires
        encode_utf8(t).len() <= u64::MAX,
    ensures
        cod_texto(t).len() == 8 + encode_utf8(t).len(),
        ler_texto(cod_texto(t) + resto) == Some((t, resto)),
{
    lema_ler_cod_bytes(encode_utf8(t), resto);
    vstd::utf8::encode_utf8_valid_utf8(t);
    vstd::utf8::encode_utf8_decode_utf8(t);
}

pub proof fn lema_ler_cod_instante(t: Instante, resto: Seq<u8>)
    ensures
        cod_instante(t).len() == 12,
        ler_instante(cod_instante(t) + resto) == Some((t, resto)),
{
    let s = t.segundos;
    assert((s as u64) as i64 == s) by (bit_vector);
    lema_ler_cod_u64(t.segundos as u64, cod_u32(t.nanos) + resto);
    lema_ler_cod_u32(t.nanos, resto);
    assert(cod_instante(t) + resto =~= cod_u64(t.segundos as u64) + (cod_u32(t.nanos) + resto));
}

/// Appends the eight little-endian bytes of `x`.
pub fn escrever_u64(saida: &mut Vec<u8>, x: u64)
    ensures
        final(saida)@ == old(saida)@ + cod_u64(x),
{
    let mut b = u64_to_le_bytes(x);
    saida.append(&mut b);
}

pub fn escrever_u32(saida: &mut Vec<u8>, x: u32)
    ensures
        final(saida)@ == old(saida)@ + cod_u32(x),
{
    let mut b = u32_to_le_bytes(x);
    saida.append(&mut b);
}

/// Appends `b` behind its length.
pub fn escrever_bytes(saida: &mut Vec<u8>, b: &[u8])
    ensures
        final(saida)@ == old(saida)@ + cod_bytes(b@),
{
    escrever_u64(saida, b.len() as u64);
    saida.extend_from_slice(b);
    assert(saida@ =~= old(saida)@ + cod_bytes(b@));
}

pub fn escrever_texto(saida: &mut Vec<u8>, t: &str)
    ensures
        final(saida)@ == old(saida)@ + cod_texto(t@),
{
    escrever_bytes(saida, t.as_bytes());
}

pub fn escrever_instante(saida: &mut Vec<u8>, t: &Instante)
    ensures
        final(saida)@ == old(saida)@ + cod_instante(*t),
{
    escrever_u64(saida, t.segundos as u64);
    escrever_u32(saida, t.nanos);
    assert(saida@ =~= old(saida)@ + cod_instante(*t));
}

/// Calls `String::from_utf8`.
///
/// Trusted: the call succeeds exactly on well-formed UTF-8 and then yields
/// the text that those bytes encode.
#[verifier::external_body]
pub(crate) fn texto_de_utf8(bytes: Vec<u8>) -> (r: Option<String>)
    ensures
        r.is_some() == valid_utf8(bytes@),
        r matches Some(t) ==> t@ == decode_utf8(bytes@),
{
    String::from_utf8(bytes).ok()
}

/// Whether every byte is an ASCII code.
pub open spec fn so_ascii(bytes: Seq<u8>) -> bool {
    forall|i: int| 0 <= i < bytes.len() ==> bytes[i] < 128
}

/// ASCII bytes are well-formed UTF-8.
pub proof fn lema_ascii_e_utf8(bytes: Seq<u8>)
    requires
        so_ascii(bytes),
    ensures
        valid_utf8(bytes),
        encode_utf8(decode_utf8(bytes)) == bytes,
{
    assert(bytes.subrange(0, 0) =~= Seq::<u8>::empty());
    assert(vstd::utf8::partial_valid_utf8(bytes, 0));
    vstd::utf8::partial_valid_utf8_extend_ascii_block(bytes, 0, bytes.len() as int);
    assert(bytes.subrange(0, bytes.len() as int) =~= bytes);
    vstd::utf8::decode_utf8_encode_utf8(bytes);
}

/// The text that ASCII bytes spell; `None` where the bytes are not
/// well-formed UTF-8.
pub fn texto_de_bytes(bytes: Vec<u8>) -> (r: Option<String>)
    ensures
        r is Some <==> valid_utf8(bytes@),
        r matches Some(t) ==> encode_utf8(t@) == bytes@,
        so_ascii(bytes@) ==> r is Some,
{
    proof {
        if valid_utf8(bytes@) {
            vstd::utf8::decode_utf8_encode_utf8(bytes@);
        }
        if so_ascii(bytes@) {
            lema_ascii_e_utf8(bytes@);
        }
    }
    texto_de_utf8(bytes)
}

/// Whether the exec reading at `pos` agrees with the spec reader on what
/// follows `pos`: same verdict, same value, and the new position marks the
/// same remainder.
pub open spec fn leitura_confere<T>(
    dados: Seq<u8>,
    lido: Option<(T, usize)>,
    esperado: Option<(T, Seq<u8>)>,
) -> bool {
    match esperado {
        Some((v, resto)) => lido matches Some((w, p)) && w == v && p <= dados.len() && dados.skip(
            p as int,
        ) == resto,
        None => lido is None,
    }
}

/// Reads a little-endian `u64` at `pos`; gives the value and the position
/// behind it.
pub fn ler_u64_em(dados: &[u8], pos: usize) -> (r: Option<(u64, usize)>)
    requires
        pos <= dados@.len(),
    ensures
        leitura_confere(dados@, r, ler_u64(dados@.skip(pos as int))),
{
    if dados.len() - pos < 8 {
        return None;
    }
    let x = u64_from_le_bytes(slice_subrange(dados, pos, pos + 8));
    assert(dados@.subrange(pos as int, pos + 8) =~= dados@.skip(pos as int).subrange(0, 8));
    assert(dados@.skip(pos + 8) =~= dados@.skip(pos as int).skip(8));
    Some((x, pos + 8))
}

pub fn ler_u32_em(dados: &[u8], pos: usize) -> (r: Option<(u32, usize)>)
    requires
        pos <= dados@.len(),
    ensures
        leitura_confere(dados@, r, ler_u32(dados@.skip(pos as int))),
{
    if dados.len() - pos < 4 {
        return None;
    }
    let x = u32_from_le_bytes(slice_subrange(dados, pos, pos + 4));
    assert(dados@.subrange(pos as int, pos + 4) =~= dados@.skip(pos as int).subrange(0, 4));
    assert(dados@.skip(pos + 4) =~= dados@.skip(pos as int).skip(4));
    Some((x, pos + 4))
}

/// Copies `dados[inicio..fim]` into a fresh vector.
pub fn copiar_trecho(dados: &[u8], inicio: usize, fim: usize) -> (r: Vec<u8>)
    requires
        inicio <= fim <= dados@.len(),
    ensures
        r@ == dados@.subrange(inicio as int, fim as int),
{
    let mut r: Vec<u8> = Vec::new();
    r.extend_from_slice(slice_subrange(dados, inicio, fim));
    assert(r@ =~= dados@.subrange(inicio as int, fim as int));
    r
}

/// Reads a length-prefixed byte string at `pos`.
pub fn ler_bytes_em(dados: &[u8], pos: usize) -> (r: Option<(Vec<u8>, usize)>)
    requires
        pos <= dados@.len(),
    ensures
        match ler_bytes(dados@.skip(pos as int)) {
            Some((v, resto)) => r matches Some((w, p)) && w@ == v && p <= dados@.len()
                && dados@.skip(p as int) == resto,
            None => r is None,
        },
{
    let (n, p1) = match ler_u64_em(dados, pos) {
        Some(par) => par,
        None => { return None; },
    };
    if n > (dados.len() - p1) as u64 {
        return None;
    }
    let fim = p1 + n as usize;
    let v = copiar_trecho(dados, p1, fim);
    assert(dados@.subrange(p1 as int, fim as int) =~= dados@.skip(p1 as int).take(n as int));
    assert(dados@.skip(fim as int) =~= dados@.skip(p1 as int).skip(n as int));
    Some((v, fim))
}

/// Reads a length-prefixed UTF-8 text at `pos`.
pub fn ler_texto_em(dados: &[u8], pos: usize) -> (r: Option<(String, usize)>)
    requires
        pos <= dados@.len(),
    ensures
        match ler_texto(dados@.skip(pos as int)) {
            Some((v, resto)) => r matches Some((w, p)) && w@ == v && p <= dados@.len()
                && dados@.skip(p as int) == resto,
            None => r is None,
        },
{
    let (b, p) = match ler_bytes_em(dados, pos) {
        Some(par) => par,
        None => { return None; },
    };
    match texto_de_utf8(b) {
        Some(t) => Some((t, p)),
        None => None,
    }
}

/// Reads an instant (seconds, then nanoseconds) at `pos`.
pub fn ler_instante_em(dados: &[u8], pos: usize) -> (r: Option<(Instante, usize)>)
    requires
        pos <= dados@.len(),
    ensures
        leitura_confere(dados@, r, ler_instante(dados@.skip(pos as int))),
{
    let (s, p1) = match ler_u64_em(dados, pos) {
        Some(par) => par,
        None => { return None; },
    };
    let (n, p2) = match ler_u32_em(dados, p1) {
        Some(par) => par,
        None => { return None; },
    };
    Some((Instante { segundos: s as i64, nanos: n }, p2))
}

} // verus!
