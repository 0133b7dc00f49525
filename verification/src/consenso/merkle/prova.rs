//! Inclusion proofs over the seat-order tree.

use vstd::prelude::*;
use crate::consenso::merkle::arvore::{
    caminho_de, folha_de_id, irmao, nivel_acima, no_acima, visao_nivel, ArvoreMerkle,
};
use crate::consenso::tipos::{
    bytes_iguais, calcular_hash, concatenar, sha256, ProvaInclusao,
};

verus! {

/// The parent of `atual` at position `pos`, given its sibling: at an even
/// position the node is the left child, at an odd one the right child.
pub open spec fn pai_de(atual: Seq<u8>, colega: Seq<u8>, pos: int) -> Seq<u8> {
    if pos % 2 == 0 {
        sha256(atual + colega)
    } else {
        sha256(colega + atual)
    }
}

/// The digest reached from `atual` at position `pos` of a level of
/// `tamanho` nodes by walking up to the root. At each level the position
/// halves. Where the node has a sibling at the level, the next element of
/// the path is that sibling, and the two are hashed by the parity of the
/// position. Where it has none, being the unpaired tail, it is carried up
/// unchanged and no element is used. `None` where the path is too short or
/// too long for the walk.
pub open spec fn reconstruir(atual: Seq<u8>, irmaos: Seq<Seq<u8>>, pos: int, tamanho: nat) -> Option<
    Seq<u8>,
>
    decreases tamanho,
{
    if tamanho <= 1 {
        if irmaos.len() == 0 {
            Some(atual)
        } else {
            None
        }
    } else if 0 <= irmao(pos) < tamanho {
        if irmaos.len() == 0 {
            None
        } else {
            reconstruir(
                pai_de(atual, irmaos[0], pos),
                irmaos.drop_first(),
                pos / 2,
                ((tamanho + 1) / 2) as nat,
            )
        }
    } else {
        reconstruir(atual, irmaos, pos / 2, ((tamanho + 1) / 2) as nat)
    }
}

/// Whether a proof ties `no_id` to the root `raiz` of a tree of `folhas`
/// leaves: the position is that of a leaf, the walk from the leaf of
/// `no_id` along the path ends at the proof's root, and that root is the
/// tree's.
pub open spec fn prova_confere(
    raiz: Seq<u8>,
    folhas: nat,
    caminho: Seq<Seq<u8>>,
    posicao: int,
    raiz_da_prova: Seq<u8>,
    no_id: Seq<char>,
) -> bool {
    &&& 0 <= posicao < folhas
    &&& reconstruir(folha_de_id(no_id), caminho, posicao, folhas) == Some(raiz_da_prova)
    &&& raiz_da_prova == raiz
}

/// Whether the levels are those of a tree: each is the level above the one
/// before it, and the last is the root alone.
pub open spec fn niveis_de_arvore(niveis: Seq<Seq<Seq<u8>>>) -> bool {
    &&& niveis.len() >= 1
    &&& forall|k: int|
        0 <= k < niveis.len() - 1 ==> {
            &&& (#[trigger] niveis[k]).len() > 1
            &&& niveis[k + 1] == nivel_acima(niveis[k], false)
        }
    &&& niveis.last().len() == 1
}

/// In every tree, the path of a node rebuilds the root from that node, also
/// where the node is an unpaired tail at some level.
pub proof fn lei_caminho_reconstroi_raiz(niveis: Seq<Seq<Seq<u8>>>, pos: int)
    requires
        niveis_de_arvore(niveis),
        0 <= pos < niveis[0].len(),
    ensures
        reconstruir(niveis[0][pos], caminho_de(niveis, pos), pos, niveis[0].len()) == Some(
            niveis.last()[0],
        ),
    decreases niveis.len(),
{
    if niveis.len() > 1 {
        let base = niveis[0];
        let acima = niveis.drop_first();
        assert(base.len() > 1);
        assert(niveis[1] == nivel_acima(base, false));
        assert(acima[0] == niveis[1]);
        assert(acima[0].len() == (base.len() + 1) / 2);
        assert(niveis_de_arvore(acima)) by {
            assert forall|k: int| 0 <= k < acima.len() - 1 implies {
                &&& (#[trigger] acima[k]).len() > 1
                &&& acima[k + 1] == nivel_acima(acima[k], false)
            } by {
                assert(acima[k] == niveis[k + 1]);
                assert(acima[k + 1] == niveis[k + 2]);
            }
            assert(acima.last() == niveis.last());
        }
        let resto = caminho_de(acima, pos / 2);
        assert(niveis[1][pos / 2] == no_acima(base, false, pos / 2));
        lei_caminho_reconstroi_raiz(acima, pos / 2);
        assert(acima.last() == niveis.last());
        if 0 <= irmao(pos) < base.len() {
            let colega = base[irmao(pos)];
            let caminho = seq![colega] + resto;
            assert(caminho_de(niveis, pos) == caminho);
            assert(caminho.drop_first() =~= resto);
            assert(caminho[0] == colega);
            assert(pai_de(base[pos], colega, pos) == no_acima(base, false, pos / 2));
        } else {
            // The unpaired tail stands alone at the end of its level.
            assert(pos % 2 == 0 && pos + 1 == base.len());
            assert(caminho_de(niveis, pos) == resto);
            assert(no_acima(base, false, pos / 2) == base[pos]);
        }
    } else {
        assert(caminho_de(niveis, pos) =~= Seq::<Seq<u8>>::empty());
    }
}

pub struct GeradorProva;

impl GeradorProva {
    pub fn new() -> (r: GeradorProva) {
        GeradorProva
    }

    /// The proof that is generated for the node at a leaf position verifies
    /// for that node, in every tree.
    pub proof fn lei_prova_gerada_confere(arvore: ArvoreMerkle, posicao: int)
        requires
            arvore.bem_formada(),
            0 <= posicao < arvore.ids().len(),
        ensures
            prova_confere(
                arvore.raiz(),
                arvore.ids().len(),
                caminho_de(arvore.niveis(), posicao),
                posicao,
                arvore.raiz(),
                arvore.ids()[posicao],
            ),
    {
        lei_caminho_reconstroi_raiz(arvore.niveis(), posicao);
    }

    /// The inclusion proof of `no_id`, `None` where the tree does not hold it.
    pub fn gerar_prova(&self, arvore: &ArvoreMerkle, no_id: &str) -> (r: Option<ProvaInclusao>)
        ensures
            r is Some <==> exists|j: int| 0 <= j < arvore.ids().len() && arvore.ids()[j] == no_id@,
            r matches Some(p) ==> {
                &&& p.posicao < arvore.ids().len()
                &&& arvore.ids()[p.posicao as int] == no_id@
                &&& forall|j: int| p.posicao < j < arvore.ids().len() ==> arvore.ids()[j] != no_id@
                &&& visao_nivel(p.merkle_proof@) == caminho_de(arvore.niveis(), p.posicao as int)
                &&& p.merkle_root@ == arvore.raiz()
                &&& arvore.bem_formada() ==> prova_confere(
                    arvore.raiz(),
                    arvore.ids().len(),
                    visao_nivel(p.merkle_proof@),
                    p.posicao as int,
                    p.merkle_root@,
                    no_id@,
                )
            },
    {
        match arvore.obter_posicao_no(no_id) {
            Some(posicao) => {
                proof {
                    if arvore.bem_formada() {
                        GeradorProva::lei_prova_gerada_confere(*arvore, posicao as int);
                    }
                }
                let merkle_proof = arvore.obter_caminho_prova(posicao);
                let merkle_root = arvore.obter_root();
                Some(ProvaInclusao { merkle_proof, posicao, merkle_root })
            },
            None => None,
        }
    }

    /// Walks from the leaf of `no_id` up the levels of `arvore` along the
    /// siblings of `prova`, and compares what it reaches with the proof's
    /// root and the tree's. A position that is no leaf's, and a path that is
    /// too short or too long for the tree, are refused.
    pub fn verificar_prova(&self, arvore: &ArvoreMerkle, prova: &ProvaInclusao, no_id: &str) -> (r:
        bool)
        ensures
            r == prova_confere(
                arvore.raiz(),
                arvore.ids().len(),
                visao_nivel(prova.merkle_proof@),
                prova.posicao as int,
                prova.merkle_root@,
                no_id@,
            ),
    {
        let ghost irmaos = visao_nivel(prova.merkle_proof@);
        let folhas = arvore.numero_de_folhas();
        if prova.posicao >= folhas {
            return false;
        }
        let ghost alvo = reconstruir(
            folha_de_id(no_id@),
            irmaos,
            prova.posicao as int,
            folhas as nat,
        );
        let mut hash_atual = calcular_hash(no_id.as_bytes());
        let mut posicao_atual = prova.posicao;
        let mut tamanho = folhas;
        let mut k: usize = 0;
        assert(irmaos.skip(0) =~= irmaos);
        while tamanho > 1
            invariant
                k <= prova.merkle_proof@.len(),
                posicao_atual < tamanho,
                prova.posicao < folhas,
                folhas == arvore.ids().len(),
                irmaos == visao_nivel(prova.merkle_proof@),
                alvo == reconstruir(
                    folha_de_id(no_id@),
                    irmaos,
                    prova.posicao as int,
                    folhas as nat,
                ),
                reconstruir(
                    hash_atual@,
                    irmaos.skip(k as int),
                    posicao_atual as int,
                    tamanho as nat,
                ) == alvo,
            decreases tamanho,
        {
            let tem_irmao = if posicao_atual % 2 == 0 {
                tamanho - posicao_atual > 1
            } else {
                true
            };
            assert(tem_irmao == (0 <= irmao(posicao_atual as int) < tamanho));
            if tem_irmao {
                if k >= prova.merkle_proof.len() {
                    assert(irmaos.skip(k as int).len() == 0);
                    assert(alvo is None);
                    return false;
                }
                let hash_irmao = &prova.merkle_proof[k];
                assert(irmaos.skip(k as int)[0] == hash_irmao@);
                assert(irmaos.skip(k as int).drop_first() =~= irmaos.skip(k + 1));
                let dados = if posicao_atual % 2 == 0 {
                    concatenar(hash_atual.as_slice(), hash_irmao.as_slice())
                } else {
                    concatenar(hash_irmao.as_slice(), hash_atual.as_slice())
                };
                hash_atual = calcular_hash(dados.as_slice());
                k += 1;
            }
            posicao_atual = posicao_atual / 2;
            tamanho = tamanho / 2 + tamanho % 2;
        }
        if k != prova.merkle_proof.len() {
            assert(irmaos.skip(k as int).len() > 0);
            assert(alvo is None);
            return false;
        }
        assert(irmaos.skip(k as int).len() == 0);
        let raiz = arvore.obter_root();
        bytes_iguais(hash_atual.as_slice(), prova.merkle_root.as_slice()) && bytes_iguais(
            prova.merkle_root.as_slice(),
            raiz.as_slice(),
        )
    }
}

} // verus!
