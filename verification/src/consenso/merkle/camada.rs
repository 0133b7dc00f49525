//! The Merkle layer of a round: the tree over the ordered queue.

use vstd::prelude::*;
use crate::consenso::merkle::arvore::{
    caminho_de, ids_dos_nos, visao_nivel, ArvoreMerkle,
};
use crate::consenso::merkle::prova::{prova_confere, GeradorProva};
use crate::consenso::tipos::{FilaOrdenada, ProvaInclusao};
use crate::erro::Erro;

verus! {

pub struct CamadaMerkle {
    arvore: Option<ArvoreMerkle>,
    gerador_prova: GeradorProva,
}

impl CamadaMerkle {
    /// The tree of the current round, `None` before the first.
    pub closed spec fn arvore(&self) -> Option<ArvoreMerkle> {
        self.arvore
    }

    pub fn new() -> (r: CamadaMerkle)
        ensures
            r.arvore() is None,
    {
        CamadaMerkle { arvore: None, gerador_prova: GeradorProva::new() }
    }

    /// Builds the tree over the node ids of `fila`, keeps it, and returns
    /// its root. Fails on an empty queue, and then keeps the tree it had.
    pub fn gerar_arvore(&mut self, fila: &FilaOrdenada) -> (r: Result<Vec<u8>, Erro>)
        ensures
            r is Err <==> fila.nos@.len() == 0,
            r matches Err(e) ==> e == Erro::ListaDeNosVazia && final(self).arvore() == old(self).arvore(),
            r matches Ok(raiz) ==> (final(self).arvore() matches Some(a) && {
                &&& a.bem_formada()
                &&& a.ids() == ids_dos_nos(fila.nos@)
                &&& raiz@ == a.raiz()
            }),
    {
        match ArvoreMerkle::construir(fila.nos.as_slice()) {
            Ok(arvore) => {
                let raiz = arvore.obter_root();
                self.arvore = Some(arvore);
                Ok(raiz)
            },
            Err(e) => Err(e),
        }
    }

    /// The inclusion proof of `no_id` in the current tree.
    pub fn gerar_prova_inclusao(&self, no_id: &str) -> (r: Option<ProvaInclusao>)
        ensures
            match self.arvore() {
                Some(a) => {
                    &&& r is Some <==> exists|j: int|
                        0 <= j < a.ids().len() && a.ids()[j] == no_id@
                    &&& r matches Some(p) ==> {
                        &&& p.posicao < a.ids().len()
                        &&& a.ids()[p.posicao as int] == no_id@
                        &&& visao_nivel(p.merkle_proof@) == caminho_de(a.niveis(), p.posicao as int)
                        &&& p.merkle_root@ == a.raiz()
                    }
                },
                None => r is None,
            },
    {
        match &self.arvore {
            Some(arvore) => self.gerador_prova.gerar_prova(arvore, no_id),
            None => None,
        }
    }

    /// Whether `prova` ties `no_id` to the root of the current tree.
    pub fn verificar_prova(&self, prova: &ProvaInclusao, no_id: &str) -> (r: bool)
        ensures
            r == match self.arvore() {
                Some(a) => prova_confere(
                    a.raiz(),
                    a.ids().len(),
                    visao_nivel(prova.merkle_proof@),
                    prova.posicao as int,
                    prova.merkle_root@,
                    no_id@,
                ),
                None => false,
            },
    {
        match &self.arvore {
            Some(arvore) => self.gerador_prova.verificar_prova(arvore, prova, no_id),
            None => false,
        }
    }
}

} // verus!
