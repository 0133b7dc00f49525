//! A map keyed by byte strings that remembers the order of insertion.
//!
//! It stands where the node needs a keyed store whose oldest entries can be
//! told apart from its newest: the commitment table, the validation cache,
//! the set of seen transactions.

use vstd::prelude::*;
use crate::consenso::tipos::bytes_iguais;

verus! {

pub struct MapaOrdenado<V> {
    chaves: Vec<Vec<u8>>,
    valores: Vec<V>,
}

/// Whether no key stands twice in the list.
pub open spec fn sem_repeticao(chaves: Seq<Seq<u8>>) -> bool {
    forall|i: int, j: int| 0 <= i < j < chaves.len() ==> chaves[i] != chaves[j]
}

/// Whether `chave` stands in the list.
pub open spec fn ocorre(chaves: Seq<Seq<u8>>, chave: Seq<u8>) -> bool {
    exists|i: int| 0 <= i < chaves.len() && #[trigger] chaves[i] == chave
}

/// A place where `chave` stands in the list.
pub open spec fn lugar_de(chaves: Seq<Seq<u8>>, chave: Seq<u8>) -> int {
    choose|i: int| 0 <= i < chaves.len() && #[trigger] chaves[i] == chave
}

/// In a list without repetition a key has one place.
pub proof fn lema_lugar_unico(chaves: Seq<Seq<u8>>, i: int)
    requires
        sem_repeticao(chaves),
        0 <= i < chaves.len(),
    ensures
        ocorre(chaves, chaves[i]),
        lugar_de(chaves, chaves[i]) == i,
{
    let j = lugar_de(chaves, chaves[i]);
    if j < i {
        assert(chaves[j] != chaves[i]);
    } else if i < j {
        assert(chaves[i] != chaves[j]);
    }
}

/// The keys and values of a map after `valor` was put under `chave`: in
/// the place of the old value where the key is there, else behind all
/// others.
pub open spec fn com_entrada<V>(chaves: Seq<Seq<u8>>, valores: Seq<V>, chave: Seq<u8>, valor: V) -> (
    Seq<Seq<u8>>,
    Seq<V>,
) {
    if ocorre(chaves, chave) {
        (chaves, valores.update(lugar_de(chaves, chave), valor))
    } else {
        (chaves.push(chave), valores.push(valor))
    }
}

/// The value under `chave`, `padrao` where the key is not there.
pub open spec fn valor_ou<V>(chaves: Seq<Seq<u8>>, valores: Seq<V>, chave: Seq<u8>, padrao: V) -> V {
    if ocorre(chaves, chave) {
        valores[lugar_de(chaves, chave)]
    } else {
        padrao
    }
}

impl MapaOrdenado<u64> {
    /// A copy with the same entries.
    pub fn duplicar(&self) -> (r: MapaOrdenado<u64>)
        requires
            self.bem_formado(),
        ensures
            r.bem_formado(),
            r.chaves() == self.chaves(),
            r.valores() == self.valores(),
    {
        let mut chaves: Vec<Vec<u8>> = Vec::new();
        let mut valores: Vec<u64> = Vec::new();
        let mut i: usize = 0;
        while i < self.chaves.len()
            invariant
                self.bem_formado(),
                i <= self.chaves@.len(),
                chaves@.len() == i,
                valores@.len() == i,
                forall|k: int| 0 <= k < i ==> (#[trigger] chaves@[k])@ == self.chaves@[k]@,
                forall|k: int| 0 <= k < i ==> valores@[k] == self.valores@[k],
            decreases self.chaves@.len() - i,
        {
            let c = self.chaves[i].clone();
            assert(c@ =~= self.chaves@[i as int]@);
            chaves.push(c);
            valores.push(self.valores[i]);
            i += 1;
        }
        let r = MapaOrdenado { chaves, valores };
        assert(r.chaves() =~= self.chaves());
        assert(r.valores() =~= self.valores());
        r
    }
}

/// The byte strings held by a list of vectors.
pub open spec fn visoes_bytes(valores: Seq<Vec<u8>>) -> Seq<Seq<u8>> {
    Seq::new(valores.len(), |i: int| valores[i]@)
}

impl MapaOrdenado<Vec<u8>> {
    /// A copy with the same entries.
    pub fn duplicar(&self) -> (r: MapaOrdenado<Vec<u8>>)
        requires
            self.bem_formado(),
        ensures
            r.bem_formado(),
            r.chaves() == self.chaves(),
            visoes_bytes(r.valores()) == visoes_bytes(self.valores()),
    {
        let mut chaves: Vec<Vec<u8>> = Vec::new();
        let mut valores: Vec<Vec<u8>> = Vec::new();
        let mut i: usize = 0;
        while i < self.chaves.len()
            invariant
                self.bem_formado(),
                i <= self.chaves@.len(),
                chaves@.len() == i,
                valores@.len() == i,
                forall|k: int| 0 <= k < i ==> (#[trigger] chaves@[k])@ == self.chaves@[k]@,
                forall|k: int| 0 <= k < i ==> (#[trigger] valores@[k])@ == self.valores@[k]@,
            decreases self.chaves@.len() - i,
        {
            let c = self.chaves[i].clone();
            assert(c@ =~= self.chaves@[i as int]@);
            let v = self.valores[i].clone();
            assert(v@ =~= self.valores@[i as int]@);
            chaves.push(c);
            valores.push(v);
            i += 1;
        }
        let r = MapaOrdenado { chaves, valores };
        assert(r.chaves() =~= self.chaves());
        assert(visoes_bytes(r.valores()) =~= visoes_bytes(self.valores()));
        r
    }
}

impl<V> MapaOrdenado<V> {
    /// The keys, oldest first.
    pub closed spec fn chaves(&self) -> Seq<Seq<u8>> {
        Seq::new(self.chaves@.len(), |i: int| self.chaves@[i]@)
    }

    /// The values, each at the place of its key.
    pub closed spec fn valores(&self) -> Seq<V> {
        self.valores@
    }

    /// The invariant: one value per key, no key twice.
    pub open spec fn bem_formado(&self) -> bool {
        self.chaves().len() == self.valores().len() && sem_repeticao(self.chaves())
    }

    pub open spec fn contem(&self, chave: Seq<u8>) -> bool {
        ocorre(self.chaves(), chave)
    }

    /// The value under `chave`.
    pub open spec fn valor_de(&self, chave: Seq<u8>) -> V
        recommends
            self.contem(chave),
    {
        self.valores()[lugar_de(self.chaves(), chave)]
    }

    /// The map from keys to values.
    pub open spec fn mapa(&self) -> Map<Seq<u8>, V> {
        Map::new(|k: Seq<u8>| self.contem(k), |k: Seq<u8>| self.valor_de(k))
    }

    pub fn new() -> (r: Self)
        ensures
            r.bem_formado(),
            r.chaves().len() == 0,
    {
        MapaOrdenado { chaves: Vec::new(), valores: Vec::new() }
    }

    pub fn len(&self) -> (r: usize)
        ensures
            r == self.chaves().len(),
    {
        self.chaves.len()
    }

    /// The place of `chave`, `None` where the map does not hold it.
    pub fn posicao_de(&self, chave: &[u8]) -> (r: Option<usize>)
        requires
            self.bem_formado(),
        ensures
            r is Some <==> self.contem(chave@),
            r matches Some(i) ==> i < self.chaves().len() && self.chaves()[i as int] == chave@
                && lugar_de(self.chaves(), chave@) == i,
    {
        let mut i: usize = 0;
        while i < self.chaves.len()
            invariant
                i <= self.chaves@.len(),
                self.bem_formado(),
                forall|k: int| 0 <= k < i ==> self.chaves()[k] != chave@,
            decreases self.chaves@.len() - i,
        {
            assert(self.chaves()[i as int] == self.chaves@[i as int]@);
            if bytes_iguais(self.chaves[i].as_slice(), chave) {
                proof {
                    lema_lugar_unico(self.chaves(), i as int);
                }
                return Some(i);
            }
            i += 1;
        }
        None
    }

    pub fn contem_chave(&self, chave: &[u8]) -> (r: bool)
        requires
            self.bem_formado(),
        ensures
            r == self.contem(chave@),
    {
        self.posicao_de(chave).is_some()
    }

    /// The value under `chave`.
    pub fn obter(&self, chave: &[u8]) -> (r: Option<&V>)
        requires
            self.bem_formado(),
        ensures
            r is Some <==> self.contem(chave@),
            r matches Some(v) ==> *v == self.valor_de(chave@),
    {
        match self.posicao_de(chave) {
            Some(i) => Some(&self.valores[i]),
            None => None,
        }
    }

    /// The key at place `i`.
    pub fn chave_em(&self, i: usize) -> (r: &Vec<u8>)
        requires
            i < self.chaves().len(),
        ensures
            r@ == self.chaves()[i as int],
    {
        &self.chaves[i]
    }

    /// The value at place `i`.
    pub fn valor_em(&self, i: usize) -> (r: &V)
        requires
            self.bem_formado(),
            i < self.chaves().len(),
        ensures
            *r == self.valores()[i as int],
    {
        &self.valores[i]
    }

    /// Puts `valor` under `chave`: in the place of the old value where the
    /// key is there already, else behind all others.
    pub fn inserir(&mut self, chave: Vec<u8>, valor: V)
        requires
            old(self).bem_formado(),
        ensures
            final(self).bem_formado(),
            final(self).contem(chave@),
            final(self).valor_de(chave@) == valor,
            forall|k: Seq<u8>| k != chave@ ==> final(self).contem(k) == old(self).contem(k),
            forall|k: Seq<u8>|
                k != chave@ && old(self).contem(k) ==> final(self).valor_de(k) == old(self).valor_de(
                    k,
                ),
            (final(self).chaves(), final(self).valores()) == com_entrada(
                old(self).chaves(),
                old(self).valores(),
                chave@,
                valor,
            ),
    {
        let ghost antes = self.chaves();
        let ghost valores_antes = self.valores();
        match self.posicao_de(chave.as_slice()) {
            Some(i) => {
                self.valores.set(i, valor);
                assert(self.chaves() =~= antes);
                assert forall|k: Seq<u8>| k != chave@ && old(self).contem(k) implies self.valor_de(k) == old(self).valor_de(k) by {
                    let j = lugar_de(antes, k);
                    assert(antes[j] == k);
                }
            },
            None => {
                self.chaves.push(chave);
                self.valores.push(valor);
                let ghost depois = self.chaves();
                assert(depois =~= antes.push(chave@));
                assert(sem_repeticao(depois)) by {
                    assert forall|i: int, j: int| 0 <= i < j < depois.len() implies depois[i]
                        != depois[j] by {
                        if j == antes.len() {
                            assert(antes[i] == depois[i]);
                        } else {
                            assert(antes[i] != antes[j]);
                        }
                    }
                }
                proof {
                    lema_lugar_unico(depois, antes.len() as int);
                }
                assert forall|k: Seq<u8>| k != chave@ implies self.contem(k) == old(self).contem(k) by {
                    if old(self).contem(k) {
                        let j = lugar_de(antes, k);
                        assert(depois[j] == k);
                    }
                    if self.contem(k) {
                        let j = lugar_de(depois, k);
                        assert(antes[j] == k);
                    }
                }
                assert forall|k: Seq<u8>| k != chave@ && old(self).contem(k) implies self.valor_de(k) == old(self).valor_de(k) by {
                    let j = lugar_de(antes, k);
                    assert(depois[j] == k);
                    lema_lugar_unico(depois, j);
                }
            },
        }
    }

    /// Takes `chave` and its value out; says whether the key was there.
    pub fn remover(&mut self, chave: &[u8]) -> (r: bool)
        requires
            old(self).bem_formado(),
        ensures
            final(self).bem_formado(),
            r == old(self).contem(chave@),
            !final(self).contem(chave@),
            forall|k: Seq<u8>| k != chave@ ==> final(self).contem(k) == old(self).contem(k),
            forall|k: Seq<u8>|
                k != chave@ && old(self).contem(k) ==> final(self).valor_de(k) == old(self).valor_de(
                    k,
                ),
            r ==> {
                &&& final(self).chaves() == old(self).chaves().remove(
                    lugar_de(old(self).chaves(), chave@),
                )
                &&& final(self).valores() == old(self).valores().remove(
                    lugar_de(old(self).chaves(), chave@),
                )
            },
            !r ==> final(self).chaves() == old(self).chaves() && final(self).valores() == old(self).valores(),
    {
        let ghost antes = self.chaves();
        let ghost valores_antes = self.valores();
        match self.posicao_de(chave) {
            Some(i) => {
                self.chaves.remove(i);
                self.valores.remove(i);
                let ghost depois = self.chaves();
                assert(depois =~= antes.remove(i as int));
                assert(sem_repeticao(depois)) by {
                    assert forall|a: int, b: int| 0 <= a < b < depois.len() implies depois[a]
                        != depois[b] by {
                        let a0 = if a < i { a } else { a + 1 };
                        let b0 = if b < i { b } else { b + 1 };
                        assert(antes[a0] != antes[b0]);
                    }
                }
                assert(!self.contem(chave@)) by {
                    if self.contem(chave@) {
                        let j = lugar_de(depois, chave@);
                        let j0 = if j < i { j } else { j + 1 };
                        assert(antes[j0] == chave@);
                        lema_lugar_unico(antes, j0);
                    }
                }
                assert forall|k: Seq<u8>| k != chave@ implies self.contem(k) == old(self).contem(k) by {
                    if old(self).contem(k) {
                        let j = lugar_de(antes, k);
                        let j1 = if j < i { j } else { j - 1 };
                        assert(depois[j1] == k);
                    }
                    if self.contem(k) {
                        let j = lugar_de(depois, k);
                        let j0 = if j < i { j } else { j + 1 };
                        assert(antes[j0] == k);
                    }
                }
                assert forall|k: Seq<u8>| k != chave@ && old(self).contem(k) implies self.valor_de(k) == old(self).valor_de(k) by {
                    let j = lugar_de(antes, k);
                    let j1 = if j < i { j } else { j - 1 };
                    assert(depois[j1] == k);
                    lema_lugar_unico(depois, j1);
                }
                true
            },
            None => false,
        }
    }

    /// Takes out the `n` oldest entries, all of them where there are fewer.
    pub fn remover_mais_antigos(&mut self, n: usize)
        requires
            old(self).bem_formado(),
        ensures
            final(self).bem_formado(),
            final(self).chaves() == old(self).chaves().skip(
                if n <= old(self).chaves().len() {
                    n as int
                } else {
                    old(self).chaves().len() as int
                },
            ),
            final(self).valores() == old(self).valores().skip(
                if n <= old(self).chaves().len() {
                    n as int
                } else {
                    old(self).chaves().len() as int
                },
            ),
    {
        let ghost antes = self.chaves();
        let ghost valores_antes = self.valores();
        let total = self.chaves.len();
        let corte = if n <= total {
            n
        } else {
            total
        };
        let chaves = self.chaves.split_off(corte);
        let valores = self.valores.split_off(corte);
        self.chaves = chaves;
        self.valores = valores;
        assert(self.chaves() =~= antes.skip(corte as int));
        assert(self.valores() =~= valores_antes.skip(corte as int));
        assert(sem_repeticao(self.chaves())) by {
            let depois = self.chaves();
            assert forall|a: int, b: int| 0 <= a < b < depois.len() implies depois[a]
                != depois[b] by {
                assert(antes[a + corte] != antes[b + corte]);
            }
        }
    }

    /// Empties the map.
    pub fn limpar(&mut self)
        ensures
            final(self).bem_formado(),
            final(self).chaves().len() == 0,
            final(self).valores().len() == 0,
    {
        self.chaves.clear();
        self.valores.clear();
    }
}

} // verus!
