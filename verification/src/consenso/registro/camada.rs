//! The table of the commitments of a round, one per node.

use vstd::prelude::*;
use crate::consenso::registro::validador::{
    commitment_valido, ValidadorCommitment, JANELA_COMMITMENT,
};
use crate::consenso::tipos::{
    bytes_de_texto, bytes_do_texto, lema_bytes_de_texto_injetiva, Commitment, CommitmentView,
};
use crate::mapa::{lugar_de, MapaOrdenado};
use crate::tempo::Instante;

verus! {

pub struct CamadaRegistro {
    commitments: MapaOrdenado<Commitment>,
    validador: ValidadorCommitment,
}

impl CamadaRegistro {
    /// Whether node `no_id` has a commitment in the table.
    pub closed spec fn tem(&self, no_id: Seq<char>) -> bool {
        self.commitments.contem(bytes_de_texto(no_id))
    }

    /// The commitment of node `no_id`.
    pub closed spec fn commitment_de(&self, no_id: Seq<char>) -> CommitmentView {
        self.commitments.valor_de(bytes_de_texto(no_id))@
    }

    /// The commitments of the table, in order of the first commitment of
    /// their node.
    pub closed spec fn em_ordem(&self) -> Seq<CommitmentView> {
        Seq::new(self.commitments.valores().len(), |i: int| self.commitments.valores()[i]@)
    }

    /// How many nodes have a commitment in the table.
    pub closed spec fn total(&self) -> nat {
        self.commitments.chaves().len()
    }

    /// The invariant of the table: each commitment stands under its own
    /// node id.
    pub closed spec fn bem_formada(&self) -> bool {
        &&& self.commitments.bem_formado()
        &&& self.validador.janela() == JANELA_COMMITMENT
        &&& forall|i: int|
            0 <= i < self.commitments.chaves().len() ==> #[trigger] self.commitments.chaves()[i]
                == bytes_de_texto(self.commitments.valores()[i].no_id@)
    }

    /// The table from node ids to commitments.
    pub open spec fn tabela(&self) -> Map<Seq<char>, CommitmentView> {
        Map::new(|id: Seq<char>| self.tem(id), |id: Seq<char>| self.commitment_de(id))
    }

    /// An empty table.
    pub fn new() -> (r: CamadaRegistro)
        ensures
            r.bem_formada(),
            r.total() == 0,
            forall|id: Seq<char>| !r.tem(id),
    {
        CamadaRegistro { commitments: MapaOrdenado::new(), validador: ValidadorCommitment::new() }
    }

    /// Closes the commitment window. The table is fed by
    /// `adicionar_commitment`; closing it changes nothing.
    pub fn processar_commitments(&self)
        requires
            self.bem_formada(),
    {
    }

    /// Takes `commitment` into the table where it is valid at `agora`, in
    /// the place of an earlier one of the same node; drops it otherwise.
    pub fn adicionar_commitment(&mut self, commitment: Commitment, agora: Instante) -> (r: bool)
        requires
            old(self).bem_formada(),
        ensures
            final(self).bem_formada(),
            r == commitment_valido(commitment@, agora, JANELA_COMMITMENT),
            r ==> final(self).tabela() == old(self).tabela().insert(commitment@.no_id, commitment@),
            !r ==> final(self).tabela() == old(self).tabela(),
            r && !old(self).tem(commitment@.no_id) ==> final(self).total() == old(self).total() + 1,
            r && old(self).tem(commitment@.no_id) ==> final(self).total() == old(self).total(),
    {
        if !self.validador.validar(&commitment, agora) {
            return false;
        }
        let chave = bytes_do_texto(commitment.no_id.as_str());
        let ghost visao = commitment@;
        let ghost antes = self.commitments;
        self.commitments.inserir(chave, commitment);
        proof {
            let depois = self.commitments;
            if antes.contem(chave@) {
                let p = lugar_de(antes.chaves(), chave@);
                assert(antes.chaves()[p] == chave@);
            }
            assert forall|id: Seq<char>| #[trigger] self.tem(id) == (id == visao.no_id || old(self).tem(id)) by {
                if bytes_de_texto(id) == chave@ {
                    lema_bytes_de_texto_injetiva(id, visao.no_id);
                }
            }
            assert forall|id: Seq<char>| id != visao.no_id && old(self).tem(id) implies
                #[trigger] self.commitment_de(id) == old(self).commitment_de(id) by {
                if bytes_de_texto(id) == chave@ {
                    lema_bytes_de_texto_injetiva(id, visao.no_id);
                }
            }
            assert(self.tabela() =~= old(self).tabela().insert(visao.no_id, visao));
        }
        true
    }

    /// The commitment of node `no_id`, `None` where it has none.
    pub fn obter_commitment(&self, no_id: &str) -> (r: Option<&Commitment>)
        requires
            self.bem_formada(),
        ensures
            r is Some <==> self.tem(no_id@),
            r matches Some(c) ==> c@ == self.commitment_de(no_id@) && c@.no_id == no_id@,
    {
        let r = self.commitments.obter(no_id.as_bytes());
        proof {
            if self.tem(no_id@) {
                let chave = bytes_de_texto(no_id@);
                let p = lugar_de(self.commitments.chaves(), chave);
                assert(self.commitments.chaves()[p] == chave);
                lema_bytes_de_texto_injetiva(no_id@, self.commitments.valores()[p].no_id@);
            }
        }
        r
    }

    /// The commitments of the table, oldest node first.
    pub fn obter_commitments(&self) -> (r: Vec<Commitment>)
        requires
            self.bem_formada(),
        ensures
            r@.len() == self.total(),
            Seq::new(r@.len(), |i: int| r@[i]@) == self.em_ordem(),
            forall|i: int|
                0 <= i < r@.len() ==> self.tem((#[trigger] r@[i])@.no_id) && self.commitment_de(
                    r@[i]@.no_id,
                ) == r@[i]@,
    {
        let mut r: Vec<Commitment> = Vec::new();
        let mut i: usize = 0;
        while i < self.commitments.len()
            invariant
                self.bem_formada(),
                i <= self.commitments.chaves().len(),
                r@.len() == i,
                forall|k: int| 0 <= k < i ==> (#[trigger] r@[k])@ == self.commitments.valores()[k]@,
            decreases self.commitments.chaves().len() - i,
        {
            r.push(self.commitments.valor_em(i).duplicar());
            i += 1;
        }
        assert(Seq::new(r@.len(), |i: int| r@[i]@) =~= self.em_ordem());
        proof {
            assert forall|k: int| 0 <= k < r@.len() implies self.tem((#[trigger] r@[k])@.no_id)
                && self.commitment_de(r@[k]@.no_id) == r@[k]@ by {
                crate::mapa::lema_lugar_unico(self.commitments.chaves(), k);
            }
        }
        r
    }

    /// Empties the table at the end of a round.
    pub fn limpar_commitments(&mut self)
        requires
            old(self).bem_formada(),
        ensures
            final(self).bem_formada(),
            final(self).total() == 0,
            forall|id: Seq<char>| !final(self).tem(id),
    {
        self.commitments.limpar();
    }
}

} // verus!
