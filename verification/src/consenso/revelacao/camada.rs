//! The reveals of a round and the approved set that they yield.

use vstd::prelude::*;
use crate::consenso::registro::camada::CamadaRegistro;
use crate::erro::Erro;
use crate::consenso::revelacao::fila_aprovados::FilaAprovados;
use crate::consenso::revelacao::verificador::{reveal_confere, VerificadorReveal};
use crate::consenso::tipos::{
    bytes_de_texto, bytes_do_texto, copiar_bytes, lema_bytes_de_texto_injetiva, No, NoView, Reveal, RevealView, visoes_nos,
};
use crate::mapa::{lugar_de, MapaOrdenado};

verus! {

/// The node record that an approved reveal stands for in the queue: its id
/// and public key, no address, active.
pub open spec fn no_de_reveal(r: RevealView) -> NoView {
    NoView { id: r.no_id, chave_publica: r.chave_publica, endereco: Seq::empty(), ativo: true }
}

/// The place of node `no_id` in a list of node ids, where it is there.
pub open spec fn lugar_do_no(ids: Seq<Seq<char>>, no_id: Seq<char>) -> Option<int> {
    if exists|i: int| 0 <= i < ids.len() && ids[i] == no_id {
        Some(choose|i: int| 0 <= i < ids.len() && ids[i] == no_id)
    } else {
        None
    }
}

/// The reveals and the approved nodes after an accepted reveal: a node
/// that is approved already gets the new reveal in the place of its old
/// one; a new node goes behind the others with its reveal.
pub open spec fn com_reveal(reveals: Seq<RevealView>, aprovados: Seq<Seq<char>>, r: RevealView) -> (
    Seq<RevealView>,
    Seq<Seq<char>>,
) {
    match lugar_do_no(aprovados, r.no_id) {
        Some(i) => (reveals.update(i, r), aprovados),
        None => (reveals.push(r), aprovados.push(r.no_id)),
    }
}

/// Why a reveal is dropped: its node never committed, or the reveal does
/// not open the commitment.
pub open spec fn motivo_recusa(r: RevealView, registro: CamadaRegistro) -> Option<Erro> {
    if !registro.tem(r.no_id) {
        Some(Erro::CommitmentAusente)
    } else if !reveal_confere(r, registro.commitment_de(r.no_id)) {
        Some(Erro::RevealInvalido)
    } else {
        None
    }
}

pub struct CamadaReveal {
    reveals: MapaOrdenado<Reveal>,
    verificador: VerificadorReveal,
    fila_aprovados: FilaAprovados,
}

impl CamadaReveal {
    /// The accepted reveals, in order of first acceptance of their node; a
    /// later reveal of a node stands in the place of its earlier one.
    pub closed spec fn reveals(&self) -> Seq<RevealView> {
        Seq::new(self.reveals.valores().len(), |i: int| self.reveals.valores()[i]@)
    }

    /// The approved node ids, in order of approval.
    pub closed spec fn aprovados(&self) -> Seq<Seq<char>> {
        self.fila_aprovados.ids()
    }

    /// The invariant: one reveal per approved node, at the node's place.
    pub closed spec fn bem_formada(&self) -> bool {
        &&& self.reveals.bem_formado()
        &&& self.fila_aprovados.bem_formada()
        &&& self.reveals.chaves().len() == self.fila_aprovados.ids().len()
        &&& forall|i: int|
            0 <= i < self.reveals.chaves().len() ==> {
                &&& #[trigger] self.reveals.chaves()[i] == bytes_de_texto(
                    self.reveals.valores()[i].no_id@,
                )
                &&& self.fila_aprovados.ids()[i] == self.reveals.valores()[i].no_id@
            }
    }

    /// The place of node `no_id` among the approved, where it is approved.
    pub open spec fn lugar(&self, no_id: Seq<char>) -> Option<int> {
        lugar_do_no(self.aprovados(), no_id)
    }

    /// Reveal `i` is the reveal of approved node `i`, and no node is
    /// approved twice.
    pub proof fn lema_reveals_dos_aprovados(&self)
        requires
            self.bem_formada(),
        ensures
            self.reveals().len() == self.aprovados().len(),
            forall|i: int|
                0 <= i < self.reveals().len() ==> (#[trigger] self.reveals()[i]).no_id
                    == self.aprovados()[i],
            self.aprovados().no_duplicates(),
    {
        self.fila_aprovados.lema_sem_repeticao();
        assert forall|i: int| 0 <= i < self.reveals().len() implies (#[trigger] self.reveals()[i]).no_id
            == self.aprovados()[i] by {
            assert(self.reveals.chaves()[i] == bytes_de_texto(self.reveals.valores()[i].no_id@));
        }
    }

    pub fn new() -> (r: CamadaReveal)
        ensures
            r.bem_formada(),
            r.reveals().len() == 0,
            r.aprovados().len() == 0,
    {
        CamadaReveal {
            reveals: MapaOrdenado::new(),
            verificador: VerificadorReveal::new(),
            fila_aprovados: FilaAprovados::new(),
        }
    }

    /// Closes the reveal window. The approved set is fed by
    /// `adicionar_reveal`; closing it changes nothing.
    pub fn processar_reveals(&self)
        requires
            self.bem_formada(),
    {
    }

    /// Why `revelado` would be dropped, `None` where it would be accepted.
    pub fn diagnosticar(&self, revelado: &Reveal, registro: &CamadaRegistro) -> (r: Option<Erro>)
        requires
            registro.bem_formada(),
        ensures
            r == motivo_recusa(revelado@, *registro),
    {
        match registro.obter_commitment(revelado.no_id.as_str()) {
            Some(commitment) => if self.verificador.verificar(revelado, commitment) {
                None
            } else {
                Some(Erro::RevealInvalido)
            },
            None => Some(Erro::CommitmentAusente),
        }
    }

    /// Accepts `revelado` where its node has a commitment in `registro` that
    /// the reveal opens, and then approves the node; drops it otherwise.
    pub fn adicionar_reveal(&mut self, revelado: Reveal, registro: &CamadaRegistro) -> (r: bool)
        requires
            old(self).bem_formada(),
            registro.bem_formada(),
        ensures
            final(self).bem_formada(),
            r == (registro.tem(revelado@.no_id) && reveal_confere(
                revelado@,
                registro.commitment_de(revelado@.no_id),
            )),
            r == (motivo_recusa(revelado@, *registro) is None),
            !r ==> final(self).reveals() == old(self).reveals() && final(self).aprovados() == old(self).aprovados(),
            r ==> (final(self).reveals(), final(self).aprovados()) == com_reveal(
                old(self).reveals(),
                old(self).aprovados(),
                revelado@,
            ),
    {
        let confere = match registro.obter_commitment(revelado.no_id.as_str()) {
            Some(commitment) => self.verificador.verificar(&revelado, commitment),
            None => false,
        };
        if !confere {
            return false;
        }
        let chave = bytes_do_texto(revelado.no_id.as_str());
        let no_id = revelado.no_id.clone();
        let ghost visao = revelado@;
        let ghost mapa_antes = self.reveals;
        let ghost reveals_antes = self.reveals();
        let ghost ids_antes = self.aprovados();
        proof {
            self.fila_aprovados.lema_sem_repeticao();
            if mapa_antes.contem(chave@) {
                let p = lugar_de(mapa_antes.chaves(), chave@);
                assert(mapa_antes.chaves()[p] == chave@);
                lema_bytes_de_texto_injetiva(visao.no_id, mapa_antes.valores()[p].no_id@);
                assert(ids_antes[p] == visao.no_id);
                assert(old(self).lugar(visao.no_id) == Some(p)) by {
                    let q = choose|i: int| 0 <= i < ids_antes.len() && ids_antes[i] == visao.no_id;
                    assert(q == p);
                }
            } else {
                if old(self).lugar(visao.no_id) is Some {
                    let q = old(self).lugar(visao.no_id).unwrap();
                    assert(mapa_antes.chaves()[q] == chave@);
                }
                assert(!self.fila_aprovados.aprovado(visao.no_id)) by {
                    if self.fila_aprovados.aprovado(visao.no_id) {
                        let q = choose|i: int| 0 <= i < ids_antes.len() && ids_antes[i] == visao.no_id;
                        assert(mapa_antes.chaves()[q] == chave@);
                    }
                }
            }
        }
        self.reveals.inserir(chave, revelado);
        self.fila_aprovados.adicionar_no_aprovado(no_id);
        proof {
            if mapa_antes.contem(chave@) {
                let p = lugar_de(mapa_antes.chaves(), chave@);
                assert(self.reveals() =~= reveals_antes.update(p, visao));
            } else {
                assert(self.reveals() =~= reveals_antes.push(visao));
            }
        }
        true
    }

    /// The approved node ids, in order of approval.
    pub fn obter_nos_aprovados(&self) -> (r: Vec<String>)
        requires
            self.bem_formada(),
        ensures
            r@.len() == self.aprovados().len(),
            forall|i: int| 0 <= i < r@.len() ==> (#[trigger] r@[i])@ == self.aprovados()[i],
    {
        self.fila_aprovados.obter_nos_aprovados()
    }

    /// The approved nodes as node records for the ordering phase, in order
    /// of approval.
    pub fn nos_aprovados(&self) -> (r: Vec<No>)
        requires
            self.bem_formada(),
        ensures
            visoes_nos(r@) == self.reveals().map_values(|v: RevealView| no_de_reveal(v)),
    {
        let mut r: Vec<No> = Vec::new();
        let mut i: usize = 0;
        while i < self.reveals.len()
            invariant
                self.bem_formada(),
                i <= self.reveals.chaves().len(),
                r@.len() == i,
                forall|k: int|
                    0 <= k < i ==> (#[trigger] r@[k])@ == no_de_reveal(self.reveals.valores()[k]@),
            decreases self.reveals.chaves().len() - i,
        {
            let aceito = self.reveals.valor_em(i);
            r.push(
                No {
                    id: aceito.no_id.clone(),
                    chave_publica: copiar_bytes(&aceito.chave_publica),
                    endereco: String::new(),
                    ativo: true,
                },
            );
            i += 1;
        }
        assert(visoes_nos(r@) =~= self.reveals().map_values(|v: RevealView| no_de_reveal(v)));
        r
    }

    /// Empties the reveals and the approved set at the end of a round.
    pub fn limpar(&mut self)
        ensures
            final(self).bem_formada(),
            final(self).reveals().len() == 0,
            final(self).aprovados().len() == 0,
    {
        self.reveals.limpar();
        self.fila_aprovados.limpar();
    }
}

} // verus!
