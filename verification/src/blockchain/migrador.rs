//! Copying a chain into another store and checking the copy.

use vstd::prelude::*;
use crate::blockchain::bloco::BlocoView;
use crate::blockchain::cadeia::{motivo_recusa, CadeiaBlockchain};
use crate::consenso::tipos::bytes_iguais;
use crate::erro::Erro;

verus! {

/// Whether two chains hold blocks of the same hashes, place by place.
pub open spec fn mesmos_hashes(a: Seq<BlocoView>, b: Seq<BlocoView>) -> bool {
    a.len() == b.len() && forall|i: int| 0 <= i < a.len() ==> (#[trigger] a[i]).hash_bloco
        == b[i].hash_bloco
}

pub struct MigradorDados {
    cadeia_origem: CadeiaBlockchain,
    cadeia_destino: CadeiaBlockchain,
}

impl MigradorDados {
    pub closed spec fn origem(&self) -> Seq<BlocoView> {
        self.cadeia_origem.blocos()
    }

    pub closed spec fn destino(&self) -> Seq<BlocoView> {
        self.cadeia_destino.blocos()
    }

    pub closed spec fn bem_formado(&self) -> bool {
        self.cadeia_origem.bem_formada() && self.cadeia_destino.bem_formada()
    }

    /// A migrator from `origem` into `destino`.
    pub fn new(origem: CadeiaBlockchain, destino: CadeiaBlockchain) -> (r: MigradorDados)
        requires
            origem.bem_formada(),
            destino.bem_formada(),
        ensures
            r.bem_formado(),
            r.origem() == origem.blocos(),
            r.destino() == destino.blocos(),
    {
        MigradorDados { cadeia_origem: origem, cadeia_destino: destino }
    }

    /// Appends the blocks of the source to the destination, in order, and
    /// stops at the first that the destination refuses. `Ok` carries the
    /// number of blocks copied; `Err` the place of the block refused and
    /// why.
    pub fn migrar_para_formato_otimizado(&mut self) -> (r: Result<usize, (usize, Erro)>)
        requires
            old(self).bem_formado(),
        ensures
            final(self).bem_formado(),
            final(self).origem() == old(self).origem(),
            match r {
                Ok(n) => n == old(self).origem().len() && final(self).destino() == old(self).destino() + old(self).origem(),
                Err((k, e)) => {
                    &&& k < old(self).origem().len()
                    &&& final(self).destino() == old(self).destino() + old(self).origem().take(
                        k as int,
                    )
                    &&& motivo_recusa(final(self).destino(), old(self).origem()[k as int])
                        == Some(e)
                },
            },
    {
        let total = self.cadeia_origem.obter_tamanho_cadeia();
        let ghost inicio = self.cadeia_destino.blocos();
        let ghost fonte = self.cadeia_origem.blocos();
        let mut i: usize = 0;
        assert(inicio + fonte.take(0) =~= inicio);
        while i < total
            invariant
                i <= total,
                total == fonte.len(),
                fonte == self.cadeia_origem.blocos(),
                fonte == old(self).origem(),
                inicio == old(self).destino(),
                self.bem_formado(),
                self.cadeia_destino.blocos() == inicio + fonte.take(i as int),
            decreases total - i,
        {
            let bloco = match self.cadeia_origem.bloco_em(i as u64) {
                Some(b) => b.duplicar(),
                None => {
                    // Every place below the length holds a block.
                    return Err((i, Erro::NaoEncontrado));
                },
            };
            match self.cadeia_destino.adicionar_bloco(bloco) {
                Ok(_) => {},
                Err(e) => {
                    return Err((i, e));
                },
            }
            assert(self.cadeia_destino.blocos() =~= inicio + fonte.take(i + 1));
            i += 1;
        }
        assert(fonte.take(total as int) =~= fonte);
        Ok(total)
    }

    /// Whether the copy is whole: as many blocks, and the same hash at
    /// every place.
    pub fn validar_migracao(&self) -> (r: bool)
        ensures
            r == mesmos_hashes(self.origem(), self.destino()),
    {
        let total = self.cadeia_origem.obter_tamanho_cadeia();
        if total != self.cadeia_destino.obter_tamanho_cadeia() {
            return false;
        }
        let mut i: usize = 0;
        while i < total
            invariant
                i <= total,
                total == self.origem().len(),
                total == self.destino().len(),
                forall|k: int| 0 <= k < i ==> (#[trigger] self.origem()[k]).hash_bloco
                    == self.destino()[k].hash_bloco,
            decreases total - i,
        {
            let iguais = match (self.cadeia_origem.bloco_em(i as u64), self.cadeia_destino.bloco_em(
                i as u64,
            )) {
                (Some(a), Some(b)) => bytes_iguais(a.hash_bloco.as_slice(), b.hash_bloco.as_slice()),
                _ => false,
            };
            if !iguais {
                assert(self.origem()[i as int].hash_bloco != self.destino()[i as int].hash_bloco);
                return false;
            }
            i += 1;
        }
        true
    }

    /// The destination chain, for use after the migration.
    pub fn concluir(self) -> (r: CadeiaBlockchain)
        requires
            self.bem_formado(),
        ensures
            r.bem_formada(),
            r.blocos() == self.destino(),
    {
        self.cadeia_destino
    }
}

} // verus!
