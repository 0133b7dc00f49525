//! Bottom-up Merkle trees over 32-byte leaves.

use vstd::prelude::*;
use crate::consenso::tipos::{
    bytes_de_texto, calcular_hash, concatenar, hash_zero, sha256, No, TAMANHO_HASH,
};
use crate::erro::Erro;

verus! {

/// The byte strings held by a list of vectors.
pub open spec fn visao_nivel(nivel: Seq<Vec<u8>>) -> Seq<Seq<u8>> {
    Seq::new(nivel.len(), |i: int| nivel[i]@)
}

/// The levels held by a list of levels.
pub open spec fn visao_niveis(niveis: Seq<Vec<Vec<u8>>>) -> Seq<Seq<Seq<u8>>> {
    Seq::new(niveis.len(), |i: int| visao_nivel(niveis[i]@))
}

/// The parent of a left and a right child: `H(left ‖ right)`.
pub open spec fn combinar(esquerda: Seq<u8>, direita: Seq<u8>) -> Seq<u8> {
    sha256(esquerda + direita)
}

/// Node `i` of the level above `nivel`. Pairs are hashed left-then-right. An
/// unpaired tail is hashed with itself when `duplicar`, else carried up
/// unchanged.
pub open spec fn no_acima(nivel: Seq<Seq<u8>>, duplicar: bool, i: int) -> Seq<u8> {
    if 2 * i + 1 < nivel.len() {
        combinar(nivel[2 * i], nivel[2 * i + 1])
    } else if duplicar {
        combinar(nivel[2 * i], nivel[2 * i])
    } else {
        nivel[2 * i]
    }
}

/// The level above `nivel`: half as many nodes, rounded up.
pub open spec fn nivel_acima(nivel: Seq<Seq<u8>>, duplicar: bool) -> Seq<Seq<u8>> {
    Seq::new(((nivel.len() + 1) / 2) as nat, |i: int| no_acima(nivel, duplicar, i))
}

/// The root over `nivel`: the zero digest for no leaves, the leaf itself for
/// one, else the root of the level above.
pub open spec fn raiz_merkle(nivel: Seq<Seq<u8>>, duplicar: bool) -> Seq<u8>
    decreases nivel.len(),
{
    if nivel.len() == 0 {
        hash_zero()
    } else if nivel.len() == 1 {
        nivel[0]
    } else {
        raiz_merkle(nivel_acima(nivel, duplicar), duplicar)
    }
}

/// Whether every node of the level is a 32-byte digest.
pub open spec fn nivel_de_hashes(nivel: Seq<Seq<u8>>) -> bool {
    forall|i: int| 0 <= i < nivel.len() ==> (#[trigger] nivel[i]).len() == TAMANHO_HASH
}

/// 32 zero bytes.
pub fn hash_zero_vec() -> (r: Vec<u8>)
    ensures
        r@ == hash_zero(),
{
    let mut r: Vec<u8> = Vec::new();
    let mut i: usize = 0;
    while i < TAMANHO_HASH
        invariant
            i <= TAMANHO_HASH,
            r@.len() == i,
            forall|k: int| 0 <= k < i ==> r@[k] == 0u8,
        decreases TAMANHO_HASH - i,
    {
        r.push(0u8);
        i += 1;
    }
    assert(r@ =~= hash_zero());
    r
}

/// Builds the level above `nivel`.
pub fn subir_nivel(nivel: &Vec<Vec<u8>>, duplicar: bool) -> (r: Vec<Vec<u8>>)
    requires
        nivel_de_hashes(visao_nivel(nivel@)),
    ensures
        visao_nivel(r@) == nivel_acima(visao_nivel(nivel@), duplicar),
        nivel_de_hashes(visao_nivel(r@)),
{
    let n = nivel.len();
    let ghost abaixo = visao_nivel(nivel@);
    let total = n / 2 + n % 2;
    let mut acima: Vec<Vec<u8>> = Vec::new();
    let mut k: usize = 0;
    while k < total
        invariant
            n == nivel@.len(),
            total == (n + 1) / 2,
            abaixo == visao_nivel(nivel@),
            nivel_de_hashes(abaixo),
            k <= total,
            acima@.len() == k,
            forall|j: int|
                0 <= j < acima@.len() ==> (#[trigger] acima@[j])@ == no_acima(abaixo, duplicar, j),
            forall|j: int| 0 <= j < acima@.len() ==> (#[trigger] acima@[j])@.len() == TAMANHO_HASH,
        decreases total - k,
    {
        let i = 2 * k;
        assert(abaixo[i as int] == nivel@[i as int]@);
        let pai = if n - i >= 2 {
            assert(abaixo[i + 1] == nivel@[i + 1]@);
            let dados = concatenar(nivel[i].as_slice(), nivel[i + 1].as_slice());
            calcular_hash(dados.as_slice())
        } else if duplicar {
            let dados = concatenar(nivel[i].as_slice(), nivel[i].as_slice());
            calcular_hash(dados.as_slice())
        } else {
            let c = nivel[i].clone();
            assert(c@ =~= nivel@[i as int]@);
            c
        };
        assert(pai@ == no_acima(abaixo, duplicar, k as int));
        assert(pai@.len() == TAMANHO_HASH);
        acima.push(pai);
        k += 1;
    }
    assert(visao_nivel(acima@) =~= nivel_acima(abaixo, duplicar));
    acima
}

/// A copy of a level.
pub fn copiar_nivel(nivel: &Vec<Vec<u8>>) -> (r: Vec<Vec<u8>>)
    ensures
        visao_nivel(r@) == visao_nivel(nivel@),
{
    let mut r: Vec<Vec<u8>> = Vec::new();
    let mut i: usize = 0;
    while i < nivel.len()
        invariant
            i <= nivel@.len(),
            r@.len() == i,
            forall|k: int| 0 <= k < i ==> (#[trigger] r@[k])@ == nivel@[k]@,
        decreases nivel@.len() - i,
    {
        let c = nivel[i].clone();
        assert(c@ =~= nivel@[i as int]@);
        r.push(c);
        i += 1;
    }
    assert(visao_nivel(r@) =~= visao_nivel(nivel@));
    r
}

/// The leaf of a node in the seat-order tree: `H(node_id)`.
pub open spec fn folha_de_id(id: Seq<char>) -> Seq<u8> {
    sha256(bytes_de_texto(id))
}

/// The ids of a list of nodes, in order.
pub open spec fn ids_dos_nos(nos: Seq<No>) -> Seq<Seq<char>> {
    Seq::new(nos.len(), |i: int| nos[i].id@)
}

/// The leaves over a list of ids.
pub open spec fn folhas_de_ids(ids: Seq<Seq<char>>) -> Seq<Seq<u8>> {
    Seq::new(ids.len(), |i: int| folha_de_id(ids[i]))
}

/// The position of the sibling of `pos` in its level.
pub open spec fn irmao(pos: int) -> int {
    if pos % 2 == 0 {
        pos + 1
    } else {
        pos - 1
    }
}

/// The inclusion path of position `pos`: walking up from the first of
/// `niveis` to the one below the root, the sibling at each level that has
/// one.
pub open spec fn caminho_de(niveis: Seq<Seq<Seq<u8>>>, pos: int) -> Seq<Seq<u8>>
    decreases niveis.len(),
{
    if niveis.len() <= 1 {
        Seq::empty()
    } else {
        let resto = caminho_de(niveis.drop_first(), pos / 2);
        if 0 <= irmao(pos) < niveis[0].len() {
            seq![niveis[0][irmao(pos)]] + resto
        } else {
            resto
        }
    }
}

/// A Merkle tree over the ids of an ordered list of nodes. An unpaired tail
/// is carried up unchanged, so it has no sibling at that level.
pub struct ArvoreMerkle {
    root: Vec<u8>,
    folhas: Vec<Vec<u8>>,
    niveis: Vec<Vec<Vec<u8>>>,
    ids: Vec<String>,
}

impl ArvoreMerkle {
    pub closed spec fn raiz(&self) -> Seq<u8> {
        self.root@
    }

    pub closed spec fn folhas(&self) -> Seq<Seq<u8>> {
        visao_nivel(self.folhas@)
    }

    /// The levels, leaves first, root level last.
    pub closed spec fn niveis(&self) -> Seq<Seq<Seq<u8>>> {
        visao_niveis(self.niveis@)
    }

    /// The node ids, by leaf position.
    pub closed spec fn ids(&self) -> Seq<Seq<char>> {
        Seq::new(self.ids@.len(), |i: int| self.ids@[i]@)
    }

    /// The invariant of a built tree.
    pub open spec fn bem_formada(&self) -> bool {
        &&& self.ids().len() >= 1
        &&& self.folhas() == folhas_de_ids(self.ids())
        &&& self.niveis().len() >= 1
        &&& self.niveis()[0] == self.folhas()
        &&& forall|k: int|
            0 <= k < self.niveis().len() - 1 ==> {
                &&& (#[trigger] self.niveis()[k]).len() > 1
                &&& self.niveis()[k + 1] == nivel_acima(self.niveis()[k], false)
            }
        &&& self.niveis().last().len() == 1
        &&& self.raiz() == self.niveis().last()[0]
        &&& self.raiz() == raiz_merkle(self.folhas(), false)
        &&& self.raiz().len() == TAMANHO_HASH
    }

    /// Builds the tree over `nos`; fails on an empty list and on no other.
    pub fn construir(nos: &[No]) -> (r: Result<ArvoreMerkle, Erro>)
        ensures
            r is Err <==> nos@.len() == 0,
            r matches Err(e) ==> e == Erro::ListaDeNosVazia,
            r matches Ok(a) ==> a.bem_formada() && a.ids() == ids_dos_nos(nos@),
    {
        if nos.len() == 0 {
            return Err(Erro::ListaDeNosVazia);
        }
        let mut folhas: Vec<Vec<u8>> = Vec::new();
        let mut ids: Vec<String> = Vec::new();
        let mut i: usize = 0;
        while i < nos.len()
            invariant
                i <= nos@.len(),
                folhas@.len() == i,
                ids@.len() == i,
                forall|k: int| 0 <= k < i ==> (#[trigger] ids@[k])@ == nos@[k].id@,
                forall|k: int| 0 <= k < i ==> (#[trigger] folhas@[k])@ == folha_de_id(nos@[k].id@),
                forall|k: int| 0 <= k < i ==> (#[trigger] folhas@[k])@.len() == TAMANHO_HASH,
            decreases nos@.len() - i,
        {
            folhas.push(calcular_hash(nos[i].id.as_str().as_bytes()));
            ids.push(nos[i].id.clone());
            i += 1;
        }
        let ghost vids = Seq::new(ids@.len(), |k: int| ids@[k]@);
        assert(vids =~= ids_dos_nos(nos@));
        let ghost vfolhas = visao_nivel(folhas@);
        assert(vfolhas =~= folhas_de_ids(vids));
        let base = copiar_nivel(&folhas);
        let mut niveis: Vec<Vec<Vec<u8>>> = Vec::new();
        niveis.push(base);
        assert(visao_niveis(niveis@)[0] == vfolhas);
        while niveis[niveis.len() - 1].len() > 1
            invariant
                niveis@.len() >= 1,
                visao_niveis(niveis@)[0] == vfolhas,
                vfolhas.len() >= 1,
                forall|k: int|
                    0 <= k < niveis@.len() ==> nivel_de_hashes(#[trigger] visao_niveis(niveis@)[k]),
                forall|k: int|
                    0 <= k < niveis@.len() ==> (#[trigger] visao_niveis(niveis@)[k]).len() >= 1,
                forall|k: int|
                    0 <= k < niveis@.len() - 1 ==> {
                        &&& (#[trigger] visao_niveis(niveis@)[k]).len() > 1
                        &&& visao_niveis(niveis@)[k + 1] == nivel_acima(
                            visao_niveis(niveis@)[k],
                            false,
                        )
                    },
                raiz_merkle(visao_niveis(niveis@).last(), false) == raiz_merkle(vfolhas, false),
            decreases niveis@.last()@.len(),
        {
            let ghost antes = visao_niveis(niveis@);
            let ultimo = niveis.len() - 1;
            assert(antes[ultimo as int] == visao_nivel(niveis@[ultimo as int]@));
            let proximo = subir_nivel(&niveis[ultimo], false);
            niveis.push(proximo);
            let ghost depois = visao_niveis(niveis@);
            assert(forall|k: int| 0 <= k < antes.len() ==> depois[k] == antes[k]);
            assert(depois[ultimo + 1] == nivel_acima(antes[ultimo as int], false));
        }
        let topo = niveis.len() - 1;
        assert(visao_niveis(niveis@)[topo as int] == visao_nivel(niveis@[topo as int]@));
        assert(visao_niveis(niveis@).last() == visao_niveis(niveis@)[topo as int]);
        let root = niveis[topo][0].clone();
        assert(root@ =~= niveis@[topo as int]@[0]@);
        assert(visao_nivel(niveis@[topo as int]@)[0] == niveis@[topo as int]@[0]@);
        let arvore = ArvoreMerkle { root, folhas, niveis, ids };
        assert(arvore.ids() == vids);
        Ok(arvore)
    }

    /// How many leaves the tree has.
    pub fn numero_de_folhas(&self) -> (r: usize)
        ensures
            r == self.ids().len(),
    {
        self.ids.len()
    }

    /// The root digest.
    pub fn obter_root(&self) -> (r: Vec<u8>)
        ensures
            r@ == self.raiz(),
    {
        let r = self.root.clone();
        assert(r@ =~= self.root@);
        r
    }

    /// The leaf position of `no_id`: the last one where the id occurs twice,
    /// `None` where it does not occur.
    pub fn obter_posicao_no(&self, no_id: &str) -> (r: Option<usize>)
        ensures
            match r {
                Some(p) => p < self.ids().len() && self.ids()[p as int] == no_id@ && forall|j: int|
                    p < j < self.ids().len() ==> self.ids()[j] != no_id@,
                None => forall|j: int| 0 <= j < self.ids().len() ==> self.ids()[j] != no_id@,
            },
    {
        let alvo = no_id.to_owned();
        let mut i: usize = self.ids.len();
        while i > 0
            invariant
                i <= self.ids@.len(),
                alvo@ == no_id@,
                forall|j: int| i <= j < self.ids@.len() ==> self.ids@[j]@ != no_id@,
            decreases i,
        {
            i -= 1;
            if self.ids[i] == alvo {
                return Some(i);
            }
        }
        None
    }

    /// The inclusion path of leaf position `posicao`, bottom-up.
    pub fn obter_caminho_prova(&self, posicao: usize) -> (r: Vec<Vec<u8>>)
        ensures
            visao_nivel(r@) == caminho_de(self.niveis(), posicao as int),
    {
        let mut caminho: Vec<Vec<u8>> = Vec::new();
        let mut pos_atual = posicao;
        let ghost todos = visao_niveis(self.niveis@);
        let total = self.niveis.len();
        let mut k: usize = 0;
        assert(todos.skip(0) =~= todos);
        while total - k > 1
            invariant
                total == self.niveis@.len(),
                todos == visao_niveis(self.niveis@),
                k <= total,
                visao_nivel(caminho@) + caminho_de(todos.skip(k as int), pos_atual as int)
                    == caminho_de(todos, posicao as int),
            decreases total - k,
        {
            let nivel = &self.niveis[k];
            let ghost restantes = todos.skip(k as int);
            let ghost antes = visao_nivel(caminho@);
            assert(restantes[0] == visao_nivel(nivel@));
            assert(restantes.drop_first() =~= todos.skip(k + 1));
            let tem_irmao = if pos_atual % 2 == 0 {
                pos_atual < usize::MAX && pos_atual + 1 < nivel.len()
            } else {
                pos_atual - 1 < nivel.len()
            };
            if tem_irmao {
                let pos_irmao = if pos_atual % 2 == 0 {
                    pos_atual + 1
                } else {
                    pos_atual - 1
                };
                let c = nivel[pos_irmao].clone();
                assert(c@ =~= nivel@[pos_irmao as int]@);
                caminho.push(c);
                assert(visao_nivel(caminho@) =~= antes + seq![restantes[0][irmao(pos_atual as int)]]);
            }
            pos_atual = pos_atual / 2;
            k += 1;
        }
        assert(visao_nivel(caminho@) + Seq::<Seq<u8>>::empty() =~= visao_nivel(caminho@));
        caminho
    }
}

} // verus!
