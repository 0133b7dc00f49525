//! The approved set of a round: node ids, each once, in order of approval.

use vstd::prelude::*;
use crate::consenso::tipos::{bytes_de_texto, bytes_do_texto, lema_bytes_de_texto_injetiva};
use crate::mapa::{lugar_de, MapaOrdenado};

verus! {

pub struct FilaAprovados {
    nos_aprovados: MapaOrdenado<String>,
}

impl FilaAprovados {
    /// The approved node ids, in order of first approval.
    pub closed spec fn ids(&self) -> Seq<Seq<char>> {
        Seq::new(self.nos_aprovados.valores().len(), |i: int| self.nos_aprovados.valores()[i]@)
    }

    /// The invariant of the set.
    pub closed spec fn bem_formada(&self) -> bool {
        &&& self.nos_aprovados.bem_formado()
        &&& forall|i: int|
            0 <= i < self.nos_aprovados.chaves().len() ==> #[trigger] self.nos_aprovados.chaves()[i]
                == bytes_de_texto(self.nos_aprovados.valores()[i]@)
    }

    /// Whether node `no_id` is approved.
    pub open spec fn aprovado(&self, no_id: Seq<char>) -> bool {
        self.ids().contains(no_id)
    }

    /// No id stands twice in the set.
    pub proof fn lema_sem_repeticao(&self)
        requires
            self.bem_formada(),
        ensures
            self.ids().no_duplicates(),
    {
        assert forall|i: int, j: int|
            0 <= i < self.ids().len() && 0 <= j < self.ids().len() && i != j implies self.ids()[i]
            != self.ids()[j] by {
            if self.ids()[i] == self.ids()[j] {
                assert(self.nos_aprovados.chaves()[i] == self.nos_aprovados.chaves()[j]);
                if i < j {
                    assert(self.nos_aprovados.chaves()[i] != self.nos_aprovados.chaves()[j]);
                } else {
                    assert(self.nos_aprovados.chaves()[j] != self.nos_aprovados.chaves()[i]);
                }
            }
        }
    }

    pub fn new() -> (r: FilaAprovados)
        ensures
            r.bem_formada(),
            r.ids().len() == 0,
    {
        FilaAprovados { nos_aprovados: MapaOrdenado::new() }
    }

    /// Approves node `no_id`; a node that is approved already keeps its
    /// place.
    pub fn adicionar_no_aprovado(&mut self, no_id: String)
        requires
            old(self).bem_formada(),
        ensures
            final(self).bem_formada(),
            final(self).ids() == if old(self).aprovado(no_id@) {
                old(self).ids()
            } else {
                old(self).ids().push(no_id@)
            },
    {
        let chave = bytes_do_texto(no_id.as_str());
        let ghost antes = self.nos_aprovados;
        let ghost ids_antes = self.ids();
        proof {
            if antes.contem(chave@) {
                let p = lugar_de(antes.chaves(), chave@);
                assert(antes.chaves()[p] == chave@);
                lema_bytes_de_texto_injetiva(no_id@, antes.valores()[p]@);
                assert(ids_antes[p] == no_id@);
            }
            if old(self).aprovado(no_id@) {
                let p = choose|p: int| 0 <= p < ids_antes.len() && ids_antes[p] == no_id@;
                assert(antes.chaves()[p] == chave@);
            }
        }
        self.nos_aprovados.inserir(chave, no_id);
        proof {
            if antes.contem(chave@) {
                assert(self.ids() =~= ids_antes);
            } else {
                assert(self.ids() =~= ids_antes.push(no_id@));
            }
        }
    }

    /// The approved node ids, in order of approval.
    pub fn obter_nos_aprovados(&self) -> (r: Vec<String>)
        requires
            self.bem_formada(),
        ensures
            r@.len() == self.ids().len(),
            forall|i: int| 0 <= i < r@.len() ==> (#[trigger] r@[i])@ == self.ids()[i],
    {
        let mut r: Vec<String> = Vec::new();
        let mut i: usize = 0;
        while i < self.nos_aprovados.len()
            invariant
                self.bem_formada(),
                i <= self.nos_aprovados.chaves().len(),
                r@.len() == i,
                forall|k: int| 0 <= k < i ==> (#[trigger] r@[k])@ == self.ids()[k],
            decreases self.nos_aprovados.chaves().len() - i,
        {
            r.push(self.nos_aprovados.valor_em(i).clone());
            i += 1;
        }
        r
    }

    /// Empties the set at the end of a round.
    pub fn limpar(&mut self)
        ensures
            final(self).bem_formada(),
            final(self).ids().len() == 0,
    {
        self.nos_aprovados.limpar();
    }
}

} // verus!
