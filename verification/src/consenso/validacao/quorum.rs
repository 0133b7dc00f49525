//! The quorum decision over the votes on one transaction.

use vstd::prelude::*;
use crate::consenso::tipos::{
    bytes_iguais, copiar_bytes, ValidacaoConsenso, ValidacaoView, visoes_votos,
};

verus! {

/// The default threshold: 70 % of the nodes.
pub const THRESHOLD_PADRAO: u32 = 70;

/// The default number of nodes.
pub const TOTAL_NOS_PADRAO: usize = 10;

/// The transaction hashes of the votes, in order.
pub open spec fn votos_transacao(votos: Seq<ValidacaoView>) -> Seq<Seq<u8>> {
    Seq::new(votos.len(), |i: int| votos[i].hash_transacao)
}

/// The chain hashes of the votes, in order.
pub open spec fn votos_cadeia(votos: Seq<ValidacaoView>) -> Seq<Seq<u8>> {
    Seq::new(votos.len(), |i: int| votos[i].hash_cadeia)
}

/// How often `h` stands in `votos`.
pub open spec fn contagem(votos: Seq<Seq<u8>>, h: Seq<u8>) -> nat
    decreases votos.len(),
{
    if votos.len() == 0 {
        0
    } else {
        contagem(votos.drop_last(), h) + if votos.last() == h {
            1nat
        } else {
            0nat
        }
    }
}

/// Whether more than half of the votes are for `h`.
pub open spec fn maioria_de(votos: Seq<Seq<u8>>, h: Seq<u8>) -> bool {
    contagem(votos, h) * 2 > votos.len()
}

/// Whether some value has more than half of the votes.
pub open spec fn tem_maioria(votos: Seq<Seq<u8>>) -> bool {
    exists|i: int| 0 <= i < votos.len() && maioria_de(votos, #[trigger] votos[i])
}

/// The number of votes that a quorum needs: `threshold` per cent of
/// `total` nodes, rounded up.
pub open spec fn minimo_necessario(total: nat, threshold: nat) -> nat {
    (total * threshold + 99) / 100
}

/// Whether some value has more than half of the votes, and `minimo` votes
/// at least.
pub open spec fn tem_apoio(votos: Seq<Seq<u8>>, minimo: nat) -> bool {
    exists|i: int|
        0 <= i < votos.len() && maioria_de(votos, #[trigger] votos[i]) && contagem(votos, votos[i])
            >= minimo
}

/// The quorum decision: one transaction hash and one chain hash each have
/// more than half of the votes, and each as many votes as the threshold
/// asks of the node population.
pub open spec fn quorum_atingido(votos: Seq<ValidacaoView>, total: nat, threshold: nat) -> bool {
    &&& votos.len() >= minimo_necessario(total, threshold)
    &&& tem_apoio(votos_transacao(votos), minimo_necessario(total, threshold))
    &&& tem_apoio(votos_cadeia(votos), minimo_necessario(total, threshold))
}

/// A value occurs at most as often as there are votes, and two different
/// values together too.
pub proof fn lema_contagens(votos: Seq<Seq<u8>>, a: Seq<u8>, b: Seq<u8>)
    ensures
        contagem(votos, a) <= votos.len(),
        a != b ==> contagem(votos, a) + contagem(votos, b) <= votos.len(),
    decreases votos.len(),
{
    if votos.len() > 0 {
        lema_contagens(votos.drop_last(), a, b);
    }
}

/// At most one value has a majority.
pub proof fn lei_maioria_unica(votos: Seq<Seq<u8>>, a: Seq<u8>, b: Seq<u8>)
    requires
        maioria_de(votos, a),
        maioria_de(votos, b),
    ensures
        a == b,
{
    lema_contagens(votos, a, b);
}

/// How often `alvo` stands in `votos`.
pub fn contar(votos: &Vec<Vec<u8>>, alvo: &[u8]) -> (r: usize)
    ensures
        r == contagem(Seq::new(votos@.len(), |i: int| votos@[i]@), alvo@),
{
    let ghost todos = Seq::new(votos@.len(), |i: int| votos@[i]@);
    let mut n: usize = 0;
    let mut i: usize = 0;
    assert(todos.take(0) =~= Seq::<Seq<u8>>::empty());
    while i < votos.len()
        invariant
            i <= votos@.len(),
            todos == Seq::new(votos@.len(), |k: int| votos@[k]@),
            n == contagem(todos.take(i as int), alvo@),
            n <= i,
        decreases votos@.len() - i,
    {
        assert(todos.take(i + 1).drop_last() =~= todos.take(i as int));
        assert(todos.take(i + 1).last() == votos@[i as int]@);
        if bytes_iguais(votos[i].as_slice(), alvo) {
            n += 1;
        }
        i += 1;
    }
    assert(todos.take(votos@.len() as int) =~= todos);
    n
}

/// The first place that holds the value with more than half of the votes,
/// `None` where no value has.
pub fn indice_majoritario(votos: &Vec<Vec<u8>>) -> (r: Option<usize>)
    ensures
        r is Some <==> tem_maioria(Seq::new(votos@.len(), |k: int| votos@[k]@)),
        r matches Some(i) ==> i < votos@.len() && maioria_de(
            Seq::new(votos@.len(), |k: int| votos@[k]@),
            votos@[i as int]@,
        ),
{
    let ghost todos = Seq::new(votos@.len(), |k: int| votos@[k]@);
    let total = votos.len();
    let mut i: usize = 0;
    while i < total
        invariant
            i <= total,
            total == votos@.len(),
            todos == Seq::new(votos@.len(), |k: int| votos@[k]@),
            forall|k: int| 0 <= k < i ==> !maioria_de(todos, #[trigger] todos[k]),
        decreases total - i,
    {
        let n = contar(votos, votos[i].as_slice());
        assert(todos[i as int] == votos@[i as int]@);
        if n > total / 2 {
            assert(maioria_de(todos, todos[i as int]));
            return Some(i);
        }
        i += 1;
    }
    None
}

/// Whether some value has more than half of the votes, and `minimo` votes
/// at least.
pub fn apoio_suficiente(votos: &Vec<Vec<u8>>, minimo: u128) -> (r: bool)
    ensures
        r == tem_apoio(Seq::new(votos@.len(), |k: int| votos@[k]@), minimo as nat),
{
    let ghost todos = Seq::new(votos@.len(), |k: int| votos@[k]@);
    match indice_majoritario(votos) {
        Some(i) => {
            let n = contar(votos, votos[i].as_slice());
            assert(todos[i as int] == votos@[i as int]@);
            let basta = n as u128 >= minimo;
            proof {
                if tem_apoio(todos, minimo as nat) {
                    let j = choose|j: int|
                        0 <= j < todos.len() && maioria_de(todos, #[trigger] todos[j]) && contagem(
                            todos,
                            todos[j],
                        ) >= minimo;
                    lei_maioria_unica(todos, todos[i as int], todos[j]);
                }
            }
            basta
        },
        None => false,
    }
}

/// The transaction hashes of the votes.
pub fn hashes_de_transacao(validacoes: &[ValidacaoConsenso]) -> (r: Vec<Vec<u8>>)
    ensures
        Seq::new(r@.len(), |i: int| r@[i]@) == votos_transacao(visoes_votos(validacoes@)),
{
    let mut r: Vec<Vec<u8>> = Vec::new();
    let mut i: usize = 0;
    while i < validacoes.len()
        invariant
            i <= validacoes@.len(),
            r@.len() == i,
            forall|k: int| 0 <= k < i ==> (#[trigger] r@[k])@ == validacoes@[k].hash_transacao@,
        decreases validacoes@.len() - i,
    {
        r.push(copiar_bytes(&validacoes[i].hash_transacao));
        i += 1;
    }
    assert(Seq::new(r@.len(), |i: int| r@[i]@) =~= votos_transacao(visoes_votos(validacoes@)));
    r
}

/// The chain hashes of the votes.
pub fn hashes_de_cadeia(validacoes: &[ValidacaoConsenso]) -> (r: Vec<Vec<u8>>)
    ensures
        Seq::new(r@.len(), |i: int| r@[i]@) == votos_cadeia(visoes_votos(validacoes@)),
{
    let mut r: Vec<Vec<u8>> = Vec::new();
    let mut i: usize = 0;
    while i < validacoes.len()
        invariant
            i <= validacoes@.len(),
            r@.len() == i,
            forall|k: int| 0 <= k < i ==> (#[trigger] r@[k])@ == validacoes@[k].hash_cadeia@,
        decreases validacoes@.len() - i,
    {
        r.push(copiar_bytes(&validacoes[i].hash_cadeia));
        i += 1;
    }
    assert(Seq::new(r@.len(), |i: int| r@[i]@) =~= votos_cadeia(visoes_votos(validacoes@)));
    r
}

/// The number of votes that a quorum of `threshold` per cent of `total`
/// nodes needs.
pub fn minimo_de_votos(total: usize, threshold: u32) -> (r: u128)
    ensures
        r == minimo_necessario(total as nat, threshold as nat),
{
    assert(total * threshold <= 0xFFFF_FFFF_FFFF_FFFF * 0xFFFF_FFFF) by (nonlinear_arith)
        requires
            0 <= total <= 0xFFFF_FFFF_FFFF_FFFF,
            0 <= threshold <= 0xFFFF_FFFF,
    ;
    (total as u128 * threshold as u128 + 99) / 100
}

pub struct GerenciadorQuorum {
    threshold: u32,
    total_nos: usize,
}

impl GerenciadorQuorum {
    /// The threshold, in per cent of the nodes.
    pub closed spec fn threshold(&self) -> u32 {
        self.threshold
    }

    /// The number of nodes that the threshold is taken of.
    pub closed spec fn total_nos(&self) -> usize {
        self.total_nos
    }

    /// A quorum of `threshold` per cent over ten nodes.
    pub fn new(threshold: u32) -> (r: GerenciadorQuorum)
        ensures
            r.threshold() == threshold,
            r.total_nos() == TOTAL_NOS_PADRAO,
    {
        GerenciadorQuorum { threshold, total_nos: TOTAL_NOS_PADRAO }
    }

    /// Whether the votes reach the quorum.
    pub fn verificar_quorum(&self, validacoes: &[ValidacaoConsenso]) -> (r: bool)
        ensures
            r == quorum_atingido(
                visoes_votos(validacoes@),
                self.total_nos() as nat,
                self.threshold() as nat,
            ),
    {
        let minimo = minimo_de_votos(self.total_nos, self.threshold);
        if (validacoes.len() as u128) < minimo {
            return false;
        }
        let de_transacao = hashes_de_transacao(validacoes);
        let de_cadeia = hashes_de_cadeia(validacoes);
        apoio_suficiente(&de_transacao, minimo) && apoio_suficiente(&de_cadeia, minimo)
    }

    /// Whether both the transaction hashes and the chain hashes of the votes
    /// have a majority value.
    pub fn verificar_consenso_hashes(&self, validacoes: &[ValidacaoConsenso]) -> (r: bool)
        ensures
            r == (tem_maioria(votos_transacao(visoes_votos(validacoes@))) && tem_maioria(
                votos_cadeia(visoes_votos(validacoes@)),
            )),
    {
        let de_transacao = hashes_de_transacao(validacoes);
        let de_cadeia = hashes_de_cadeia(validacoes);
        indice_majoritario(&de_transacao).is_some() && indice_majoritario(&de_cadeia).is_some()
    }

    /// The chain hash that more than half of the votes carry, `None` where
    /// none does.
    pub fn hash_cadeia_majoritario(&self, validacoes: &[ValidacaoConsenso]) -> (r: Option<Vec<u8>>)
        ensures
            match r {
                Some(h) => maioria_de(votos_cadeia(visoes_votos(validacoes@)), h@),
                None => !tem_maioria(votos_cadeia(visoes_votos(validacoes@))),
            },
    {
        let de_cadeia = hashes_de_cadeia(validacoes);
        match indice_majoritario(&de_cadeia) {
            Some(i) => {
                assert(Seq::new(de_cadeia@.len(), |k: int| de_cadeia@[k]@)[i as int]
                    == de_cadeia@[i as int]@);
                Some(copiar_bytes(&de_cadeia[i]))
            },
            None => None,
        }
    }

    pub fn atualizar_total_nos(&mut self, total: usize)
        ensures
            final(self).total_nos() == total,
            final(self).threshold() == old(self).threshold(),
    {
        self.total_nos = total;
    }

    pub fn obter_threshold(&self) -> (r: u32)
        ensures
            r == self.threshold(),
    {
        self.threshold
    }

    /// The number of votes that a quorum needs, held at the largest `usize`.
    pub fn calcular_minimo_necessario(&self) -> (r: usize)
        ensures
            r == if minimo_necessario(self.total_nos() as nat, self.threshold() as nat)
                > usize::MAX {
                usize::MAX as nat
            } else {
                minimo_necessario(self.total_nos() as nat, self.threshold() as nat)
            },
    {
        let minimo = minimo_de_votos(self.total_nos, self.threshold);
        if minimo > usize::MAX as u128 {
            usize::MAX
        } else {
            minimo as usize
        }
    }
}

} // verus!
