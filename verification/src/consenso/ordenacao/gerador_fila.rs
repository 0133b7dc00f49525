//! The ordered queue: approved nodes by seat digest, ties by node id.

use vstd::prelude::*;
use crate::consenso::ordenacao::lexico::{
    lema_lex_antissimetrica, lema_lex_reflexiva, lema_lex_total, lema_lex_transitiva, lex_leq,
    lex_menor_ou_igual,
};
use crate::consenso::tipos::{
    bytes_de_texto, bytes_iguais, calcular_position_hash, sha256, FilaOrdenada, No, NoView,
    visoes_nos,
};
use crate::erro::Erro;
use crate::tempo::Instante;

verus! {

/// The seat digest of a node: `H(public_key ‖ global_seed)`.
pub open spec fn assento(no: NoView, seed: Seq<u8>) -> Seq<u8> {
    sha256(no.chave_publica + seed)
}

/// Queue order: by seat digest, lexicographically; nodes with one seat
/// digest by node id, lexicographically on its bytes.
pub open spec fn precede(a: NoView, b: NoView, seed: Seq<u8>) -> bool {
    if assento(a, seed) == assento(b, seed) {
        lex_leq(bytes_de_texto(a.id), bytes_de_texto(b.id))
    } else {
        lex_leq(assento(a, seed), assento(b, seed))
    }
}

/// Whether every node of the queue precedes all that stand behind it.
pub open spec fn em_ordem(fila: Seq<NoView>, seed: Seq<u8>) -> bool {
    forall|i: int, j: int| 0 <= i <= j < fila.len() ==> precede(fila[i], fila[j], seed)
}

/// Whether no two nodes of the list share an id.
pub open spec fn ids_unicos(nos: Seq<NoView>) -> bool {
    forall|i: int, j: int| 0 <= i < j < nos.len() ==> nos[i].id != nos[j].id
}

/// Whether `fila` is the ordered queue of the approved nodes `nos` under
/// `seed`: the same nodes, in queue order.
pub open spec fn fila_de(fila: Seq<NoView>, nos: Seq<NoView>, seed: Seq<u8>) -> bool {
    fila.to_multiset() == nos.to_multiset() && em_ordem(fila, seed)
}

pub proof fn lema_precede_total(a: NoView, b: NoView, seed: Seq<u8>)
    ensures
        precede(a, b, seed) || precede(b, a, seed),
{
    lema_lex_total(assento(a, seed), assento(b, seed));
    lema_lex_total(bytes_de_texto(a.id), bytes_de_texto(b.id));
}

pub proof fn lema_precede_transitiva(a: NoView, b: NoView, c: NoView, seed: Seq<u8>)
    requires
        precede(a, b, seed),
        precede(b, c, seed),
    ensures
        precede(a, c, seed),
{
    let (ha, hb, hc) = (assento(a, seed), assento(b, seed), assento(c, seed));
    let (ia, ib, ic) = (bytes_de_texto(a.id), bytes_de_texto(b.id), bytes_de_texto(c.id));
    lema_lex_reflexiva(ha);
    lema_lex_reflexiva(hb);
    assert(lex_leq(ha, hb) && lex_leq(hb, hc));
    lema_lex_transitiva(ha, hb, hc);
    if ha == hc {
        lema_lex_antissimetrica(ha, hb);
        lema_lex_transitiva(ia, ib, ic);
    }
}

/// Nodes that precede each other have one id.
pub proof fn lema_precede_antissimetrica(a: NoView, b: NoView, seed: Seq<u8>)
    requires
        precede(a, b, seed),
        precede(b, a, seed),
    ensures
        a.id == b.id,
{
    let (ha, hb) = (assento(a, seed), assento(b, seed));
    if ha != hb {
        lema_lex_antissimetrica(ha, hb);
    }
    lema_lex_antissimetrica(bytes_de_texto(a.id), bytes_de_texto(b.id));
    vstd::utf8::encode_utf8_decode_utf8(a.id);
    vstd::utf8::encode_utf8_decode_utf8(b.id);
}

/// `x` put into `s` behind the last node that precedes it.
pub open spec fn inserir_na_fila(s: Seq<NoView>, x: NoView, seed: Seq<u8>) -> Seq<NoView>
    decreases s.len(),
{
    if s.len() == 0 {
        seq![x]
    } else if precede(s.last(), x, seed) {
        s.push(x)
    } else {
        inserir_na_fila(s.drop_last(), x, seed).push(s.last())
    }
}

pub proof fn lema_inserir_na_posicao(s: Seq<NoView>, x: NoView, seed: Seq<u8>, p: int)
    requires
        0 <= p <= s.len(),
        forall|k: int| p <= k < s.len() ==> !precede(#[trigger] s[k], x, seed),
        p > 0 ==> precede(s[p - 1], x, seed),
    ensures
        inserir_na_fila(s, x, seed) == s.insert(p, x),
    decreases s.len() - p,
{
    if p == s.len() {
        assert(s.push(x) =~= s.insert(p, x));
    } else {
        let antes = s.drop_last();
        lema_inserir_na_posicao(antes, x, seed, p);
        assert(antes.insert(p, x).push(s.last()) =~= s.insert(p, x));
    }
}

/// Inserting keeps the nodes and the order.
pub proof fn lema_inserir_mantem_fila(s: Seq<NoView>, x: NoView, seed: Seq<u8>)
    requires
        em_ordem(s, seed),
    ensures
        em_ordem(inserir_na_fila(s, x, seed), seed),
        inserir_na_fila(s, x, seed).to_multiset() == s.to_multiset().insert(x),
    decreases s.len(),
{
    broadcast use vstd::seq_lib::group_to_multiset_ensures;

    let r = inserir_na_fila(s, x, seed);
    if s.len() == 0 {
        assert(seq![x] =~= s.push(x));
        lema_lex_reflexiva(bytes_de_texto(x.id));
    } else if precede(s.last(), x, seed) {
        lema_lex_reflexiva(bytes_de_texto(x.id));
        assert forall|i: int, j: int| 0 <= i <= j < r.len() implies precede(r[i], r[j], seed) by {
            if j == r.len() - 1 && i < j {
                lema_precede_transitiva(s[i], s.last(), x, seed);
            }
        }
    } else {
        let antes = s.drop_last();
        assert(em_ordem(antes, seed));
        lema_inserir_mantem_fila(antes, x, seed);
        let meio = inserir_na_fila(antes, x, seed);
        assert(s =~= antes.push(s.last()));
        assert(r.to_multiset() =~= s.to_multiset().insert(x));
        lema_precede_total(s.last(), x, seed);
        lema_lex_reflexiva(bytes_de_texto(s.last().id));
        assert forall|i: int, j: int| 0 <= i <= j < r.len() implies precede(r[i], r[j], seed) by {
            if j == r.len() - 1 && i < j {
                assert(meio.to_multiset().count(meio[i]) > 0);
                if meio[i] != x {
                    assert(antes.to_multiset().count(meio[i]) > 0);
                    let k = choose|k: int| 0 <= k < antes.len() && antes[k] == meio[i];
                    assert(precede(s[k], s[s.len() - 1], seed));
                }
            }
        }
    }
}

/// The ordered queue of `nos` under `seed`: each node in turn put into the
/// queue of those before it. Nodes that the order does not tell apart keep
/// the order in which they were given.
pub open spec fn ordenar_fila(nos: Seq<NoView>, seed: Seq<u8>) -> Seq<NoView>
    decreases nos.len(),
{
    if nos.len() == 0 {
        Seq::empty()
    } else {
        inserir_na_fila(ordenar_fila(nos.drop_last(), seed), nos.last(), seed)
    }
}

/// The ordered queue holds the nodes it was made from, each as often as it
/// was given, in queue order.
pub proof fn lei_fila_ordenada(nos: Seq<NoView>, seed: Seq<u8>)
    ensures
        fila_de(ordenar_fila(nos, seed), nos, seed),
    decreases nos.len(),
{
    broadcast use vstd::multiset::group_multiset_axioms;
    broadcast use vstd::seq_lib::group_to_multiset_ensures;

    if nos.len() == 0 {
        assert(nos =~= Seq::<NoView>::empty());
    } else {
        let antes = nos.drop_last();
        lei_fila_ordenada(antes, seed);
        lema_inserir_mantem_fila(ordenar_fila(antes, seed), nos.last(), seed);
        assert(nos =~= antes.push(nos.last()));
    }
}

/// Two queues over the same nodes, both in order, are one queue, where no
/// two nodes share an id: the order of the queue does not depend on the
/// order in which the approved nodes were given.
pub proof fn lei_fila_unica(x: Seq<NoView>, y: Seq<NoView>, seed: Seq<u8>)
    requires
        em_ordem(x, seed),
        em_ordem(y, seed),
        x.to_multiset() == y.to_multiset(),
        ids_unicos(x),
    ensures
        x == y,
    decreases x.len(),
{
    broadcast use vstd::multiset::group_multiset_axioms;
    broadcast use vstd::seq_lib::group_to_multiset_ensures;

    assert(x.len() == y.len()) by {
        x.to_multiset_ensures();
        y.to_multiset_ensures();
    }
    if x.len() == 0 {
        assert(x =~= y);
    } else {
        assert(x.to_multiset().contains(x[0]));
        assert(y.to_multiset().contains(y[0]));
        let i = choose|i: int| #![trigger x[i]] 0 <= i < x.len() && x[i] == y[0];
        let j = choose|j: int| #![trigger y[j]] 0 <= j < y.len() && y[j] == x[0];
        assert(precede(x[0], x[i], seed));
        assert(precede(y[0], y[j], seed));
        lema_precede_antissimetrica(x[0], x[i], seed);
        assert(i == 0);
        assert(x.drop_first() =~= x.remove(0));
        assert(y.drop_first() =~= y.remove(0));
        vstd::seq_lib::to_multiset_remove(x, 0);
        vstd::seq_lib::to_multiset_remove(y, 0);
        let (xs, ys) = (x.drop_first(), y.drop_first());
        assert(em_ordem(xs, seed)) by {
            assert forall|a: int, b: int| 0 <= a <= b < xs.len() implies precede(
                xs[a],
                xs[b],
                seed,
            ) by {
                assert(precede(x[a + 1], x[b + 1], seed));
            }
        }
        assert(em_ordem(ys, seed)) by {
            assert forall|a: int, b: int| 0 <= a <= b < ys.len() implies precede(
                ys[a],
                ys[b],
                seed,
            ) by {
                assert(precede(y[a + 1], y[b + 1], seed));
            }
        }
        assert(ids_unicos(xs)) by {
            assert forall|a: int, b: int| 0 <= a < b < xs.len() implies xs[a].id != xs[b].id by {
                assert(x[a + 1].id != x[b + 1].id);
            }
        }
        lei_fila_unica(xs, ys, seed);
        assert(x =~= seq![x[0]] + xs);
        assert(y =~= seq![y[0]] + ys);
    }
}

/// The ordering of the queue is a function of the approved set and the
/// seed: whatever two lists hold the same nodes, each id once, any two
/// ordered queues over them under one seed are identical.
pub proof fn lei_fila_deterministica(
    fila1: Seq<NoView>,
    nos1: Seq<NoView>,
    fila2: Seq<NoView>,
    nos2: Seq<NoView>,
    seed: Seq<u8>,
)
    requires
        fila_de(fila1, nos1, seed),
        fila_de(fila2, nos2, seed),
        nos1.to_multiset() == nos2.to_multiset(),
        ids_unicos(nos1),
    ensures
        fila1 == fila2,
{
    broadcast use vstd::multiset::group_multiset_axioms;
    broadcast use vstd::seq_lib::group_to_multiset_ensures;

    lema_ids_unicos_permuta(fila1, nos1);
    lei_fila_unica(fila1, fila2, seed);
}

/// The ordered queue does not depend on the order in which the approved
/// nodes are given, where each id occurs once among them.
pub proof fn lei_fila_independe_da_entrada(nos1: Seq<NoView>, nos2: Seq<NoView>, seed: Seq<u8>)
    requires
        nos1.to_multiset() == nos2.to_multiset(),
        ids_unicos(nos1),
    ensures
        ordenar_fila(nos1, seed) == ordenar_fila(nos2, seed),
{
    lei_fila_ordenada(nos1, seed);
    lei_fila_ordenada(nos2, seed);
    lei_fila_deterministica(
        ordenar_fila(nos1, seed),
        nos1,
        ordenar_fila(nos2, seed),
        nos2,
        seed,
    );
}

/// A list of the same nodes as one in which every id occurs once has every
/// id once too.
pub proof fn lema_ids_unicos_permuta(fila: Seq<NoView>, nos: Seq<NoView>)
    requires
        fila.to_multiset() == nos.to_multiset(),
        ids_unicos(nos),
    ensures
        ids_unicos(fila),
{
    broadcast use vstd::multiset::group_multiset_axioms;
    broadcast use vstd::seq_lib::group_to_multiset_ensures;

    assert forall|a: int, b: int| 0 <= a < b < fila.len() implies fila[a].id != fila[b].id by {
        if fila[a].id == fila[b].id {
            let u = fila[a];
            let v = fila[b];
            assert(fila.to_multiset().contains(u));
            assert(fila.to_multiset().contains(v));
            let i = choose|i: int| #![trigger nos[i]] 0 <= i < nos.len() && nos[i] == u;
            let j = choose|j: int| #![trigger nos[j]] 0 <= j < nos.len() && nos[j] == v;
            assert(i == j);
            // One node at two places of `fila`: twice there, once in `nos`.
            lema_conta_dois(fila, a, b);
            lema_conta_um(nos, i);
        }
    }
}

/// A value that stands at two places occurs at least twice.
pub proof fn lema_conta_dois(s: Seq<NoView>, a: int, b: int)
    requires
        0 <= a < b < s.len(),
        s[a] == s[b],
    ensures
        s.to_multiset().count(s[a]) >= 2,
    decreases s.len(),
{
    broadcast use vstd::multiset::group_multiset_axioms;
    broadcast use vstd::seq_lib::group_to_multiset_ensures;

    let antes = s.drop_last();
    assert(s =~= antes.push(s.last()));
    if b == s.len() - 1 {
        assert(antes.to_multiset().contains(antes[a]));
    } else {
        lema_conta_dois(antes, a, b);
    }
}

/// In a list where every id occurs once, a node occurs once.
pub proof fn lema_conta_um(s: Seq<NoView>, i: int)
    requires
        ids_unicos(s),
        0 <= i < s.len(),
    ensures
        s.to_multiset().count(s[i]) == 1,
    decreases s.len(),
{
    broadcast use vstd::multiset::group_multiset_axioms;
    broadcast use vstd::seq_lib::group_to_multiset_ensures;

    let antes = s.drop_last();
    assert(s =~= antes.push(s.last()));
    assert(ids_unicos(antes));
    if i == s.len() - 1 {
        if antes.to_multiset().count(s[i]) > 0 {
            assert(antes.to_multiset().contains(s[i]));
            let k = choose|k: int| #![trigger antes[k]] 0 <= k < antes.len() && antes[k] == s[i];
            assert(s[k].id == s[i].id);
        }
    } else {
        lema_conta_um(antes, i);
        assert(s.last().id != s[i].id);
    }
}

/// Whether a node with seat digest `ha` and id `a` precedes one with seat
/// digest `hb` and id `b`.
fn precede_por(ha: &[u8], a: &str, hb: &[u8], b: &str) -> (r: bool)
    ensures
        r == if ha@ == hb@ {
            lex_leq(bytes_de_texto(a@), bytes_de_texto(b@))
        } else {
            lex_leq(ha@, hb@)
        },
{
    if bytes_iguais(ha, hb) {
        lex_menor_ou_igual(a.as_bytes(), b.as_bytes())
    } else {
        lex_menor_ou_igual(ha, hb)
    }
}

pub struct GeradorFila;

impl GeradorFila {
    pub fn new() -> (r: GeradorFila) {
        GeradorFila
    }

    /// The ordered queue of the approved nodes `nos` under `seed_global`:
    /// the same nodes, by seat digest, ties by node id; nodes with one seat
    /// digest and one id in the order given.
    pub fn gerar_fila_ordenada(&self, nos: Vec<No>, seed_global: Vec<u8>, agora: Instante) -> (r:
        Result<FilaOrdenada, Erro>)
        ensures
            r matches Ok(f) && {
                &&& visoes_nos(f.nos@) == ordenar_fila(visoes_nos(nos@), seed_global@)
                &&& fila_de(visoes_nos(f.nos@), visoes_nos(nos@), seed_global@)
                &&& f.seed_global@ == seed_global@
                &&& f.timestamp == agora
            },
    {
        let ghost seed = seed_global@;
        let ghost entrada = visoes_nos(nos@);
        let mut ordenados: Vec<No> = Vec::new();
        let mut assentos: Vec<Vec<u8>> = Vec::new();
        let mut i: usize = 0;
        assert(visoes_nos(ordenados@) =~= ordenar_fila(entrada.take(0), seed));
        while i < nos.len()
            invariant
                i <= nos@.len(),
                seed == seed_global@,
                entrada == visoes_nos(nos@),
                assentos@.len() == ordenados@.len(),
                forall|k: int|
                    0 <= k < ordenados@.len() ==> (#[trigger] assentos@[k])@ == assento(
                        ordenados@[k]@,
                        seed,
                    ),
                visoes_nos(ordenados@) == ordenar_fila(entrada.take(i as int), seed),
            decreases nos@.len() - i,
        {
            let ghost fila = visoes_nos(ordenados@);
            let no = nos[i].duplicar();
            let ghost x = no@;
            let lugar = calcular_position_hash(no.chave_publica.as_slice(), seed_global.as_slice());
            let mut p: usize = ordenados.len();
            while p > 0 && !precede_por(
                assentos[p - 1].as_slice(),
                ordenados[p - 1].id.as_str(),
                lugar.as_slice(),
                no.id.as_str(),
            )
                invariant
                    p <= ordenados@.len(),
                    assentos@.len() == ordenados@.len(),
                    fila == visoes_nos(ordenados@),
                    x == no@,
                    lugar@ == assento(x, seed),
                    forall|k: int|
                        0 <= k < ordenados@.len() ==> (#[trigger] assentos@[k])@ == assento(
                            ordenados@[k]@,
                            seed,
                        ),
                    forall|k: int| p <= k < fila.len() ==> !precede(#[trigger] fila[k], x, seed),
                decreases p,
            {
                p -= 1;
                assert(fila[p as int] == ordenados@[p as int]@);
            }
            proof {
                if p > 0 {
                    assert(fila[p - 1] == ordenados@[p - 1]@);
                }
                lema_inserir_na_posicao(fila, x, seed, p as int);
                assert(entrada.take(i + 1).drop_last() =~= entrada.take(i as int));
                assert(entrada.take(i + 1).last() == x);
            }
            ordenados.insert(p, no);
            assentos.insert(p, lugar);
            assert(visoes_nos(ordenados@) =~= fila.insert(p as int, x));
            i += 1;
        }
        proof {
            assert(entrada.take(i as int) =~= entrada);
            lei_fila_ordenada(entrada, seed);
        }
        Ok(FilaOrdenada { nos: ordenados, seed_global, timestamp: agora })
    }
}

} // verus!
