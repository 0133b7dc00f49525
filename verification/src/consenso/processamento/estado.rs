//! The state that each processed transaction left behind, and snapshots of
//! it.

use vstd::prelude::*;
use crate::consenso::tipos::{
    bytes_de_texto, bytes_do_texto, copiar_bytes, lema_bytes_de_texto_injetiva, Transacao, TAMANHO_HASH,
};
use crate::mapa::MapaOrdenado;
use crate::tempo::Instante;

verus! {

pub struct EstadoTransacao {
    pub id: String,
    pub estado_anterior: Vec<u8>,
    pub estado_atual: Vec<u8>,
    pub timestamp_processamento: Instante,
    pub processador_id: String,
    pub hash_cadeia: Vec<u8>,
}

/// What a transaction state holds, as mathematical values.
pub struct EstadoView {
    pub id: Seq<char>,
    pub estado_anterior: Seq<u8>,
    pub estado_atual: Seq<u8>,
    pub timestamp_processamento: Instante,
    pub processador_id: Seq<char>,
    pub hash_cadeia: Seq<u8>,
}

impl View for EstadoTransacao {
    type V = EstadoView;

    open spec fn view(&self) -> EstadoView {
        EstadoView {
            id: self.id@,
            estado_anterior: self.estado_anterior@,
            estado_atual: self.estado_atual@,
            timestamp_processamento: self.timestamp_processamento,
            processador_id: self.processador_id@,
            hash_cadeia: self.hash_cadeia@,
        }
    }
}

impl EstadoTransacao {
    /// A copy with the same contents.
    pub fn duplicar(&self) -> (r: EstadoTransacao)
        ensures
            r@ == self@,
    {
        EstadoTransacao {
            id: self.id.clone(),
            estado_anterior: copiar_bytes(&self.estado_anterior),
            estado_atual: copiar_bytes(&self.estado_atual),
            timestamp_processamento: self.timestamp_processamento,
            processador_id: self.processador_id.clone(),
            hash_cadeia: copiar_bytes(&self.hash_cadeia),
        }
    }
}

/// The views of a list of states, in order.
pub open spec fn visoes_estados(s: Seq<EstadoTransacao>) -> Seq<EstadoView> {
    Seq::new(s.len(), |i: int| s[i]@)
}

/// The state that a processed transaction leaves behind.
pub open spec fn estado_deixado(
    transacao: crate::consenso::tipos::TransacaoView,
    processador_id: Seq<char>,
    hash_cadeia: Seq<u8>,
) -> EstadoView {
    EstadoView {
        id: transacao.id,
        estado_anterior: transacao.estado_anterior,
        estado_atual: transacao.estado_final,
        timestamp_processamento: transacao.timestamp,
        processador_id,
        hash_cadeia,
    }
}

/// Whether every state carries a chain hash of 32 bytes.
pub open spec fn estados_consistentes(estados: Seq<EstadoView>) -> bool {
    forall|i: int| 0 <= i < estados.len() ==> (#[trigger] estados[i]).hash_cadeia.len()
        == TAMANHO_HASH
}

pub struct GerenciadorEstado {
    estados: MapaOrdenado<EstadoTransacao>,
    snapshots: Vec<Vec<EstadoTransacao>>,
}

impl GerenciadorEstado {
    /// The states, in order of the first processing of their transaction.
    pub closed spec fn estados(&self) -> Seq<EstadoView> {
        visoes_estados(self.estados.valores())
    }

    /// Whether transaction `id` has a state.
    pub closed spec fn tem(&self, id: Seq<char>) -> bool {
        self.estados.contem(bytes_de_texto(id))
    }

    /// The state of transaction `id`.
    pub closed spec fn estado_de(&self, id: Seq<char>) -> EstadoView {
        self.estados.valor_de(bytes_de_texto(id))@
    }

    /// The snapshots taken so far, oldest first.
    pub closed spec fn snapshots(&self) -> Seq<Seq<EstadoView>> {
        Seq::new(self.snapshots@.len(), |i: int| visoes_estados(self.snapshots@[i]@))
    }

    pub closed spec fn bem_formado(&self) -> bool {
        self.estados.bem_formado()
    }

    pub fn new() -> (r: GerenciadorEstado)
        ensures
            r.bem_formado(),
            r.estados().len() == 0,
            r.snapshots().len() == 0,
            forall|id: Seq<char>| !r.tem(id),
    {
        GerenciadorEstado { estados: MapaOrdenado::new(), snapshots: Vec::new() }
    }

    /// Records the state that `transacao` left behind, in the place of an
    /// earlier state of the same transaction.
    pub fn atualizar_estado(
        &mut self,
        transacao: &Transacao,
        processador_id: &str,
        hash_cadeia: Vec<u8>,
    )
        requires
            old(self).bem_formado(),
        ensures
            final(self).bem_formado(),
            final(self).snapshots() == old(self).snapshots(),
            final(self).tem(transacao@.id),
            final(self).estado_de(transacao@.id) == estado_deixado(
                transacao@,
                processador_id@,
                hash_cadeia@,
            ),
            forall|id: Seq<char>| id != transacao@.id ==> final(self).tem(id) == old(self).tem(id),
            forall|id: Seq<char>|
                id != transacao@.id && old(self).tem(id) ==> final(self).estado_de(id) == old(self).estado_de(id),
    {
        let estado = EstadoTransacao {
            id: transacao.id.clone(),
            estado_anterior: copiar_bytes(&transacao.estado_anterior),
            estado_atual: copiar_bytes(&transacao.estado_final),
            timestamp_processamento: transacao.timestamp,
            processador_id: processador_id.to_owned(),
            hash_cadeia,
        };
        let chave = bytes_do_texto(transacao.id.as_str());
        self.estados.inserir(chave, estado);
        proof {
            assert forall|id: Seq<char>| id != transacao@.id implies self.tem(id) == old(self).tem(
                id,
            ) by {
                if bytes_de_texto(id) == bytes_de_texto(transacao@.id) {
                    lema_bytes_de_texto_injetiva(id, transacao@.id);
                }
            }
            assert forall|id: Seq<char>| id != transacao@.id && old(self).tem(id) implies self.estado_de(
                id,
            ) == old(self).estado_de(id) by {
                if bytes_de_texto(id) == bytes_de_texto(transacao@.id) {
                    lema_bytes_de_texto_injetiva(id, transacao@.id);
                }
            }
        }
    }

    /// The state of transaction `transacao_id`.
    pub fn obter_estado(&self, transacao_id: &str) -> (r: Option<EstadoTransacao>)
        requires
            self.bem_formado(),
        ensures
            r is Some <==> self.tem(transacao_id@),
            r matches Some(e) ==> e@ == self.estado_de(transacao_id@),
    {
        match self.estados.obter(transacao_id.as_bytes()) {
            Some(e) => Some(e.duplicar()),
            None => None,
        }
    }

    /// A copy of the current states.
    fn copiar_estados(&self) -> (r: Vec<EstadoTransacao>)
        requires
            self.bem_formado(),
        ensures
            visoes_estados(r@) == self.estados(),
    {
        let mut r: Vec<EstadoTransacao> = Vec::new();
        let mut i: usize = 0;
        while i < self.estados.len()
            invariant
                self.bem_formado(),
                i <= self.estados.chaves().len(),
                r@.len() == i,
                forall|k: int| 0 <= k < i ==> (#[trigger] r@[k])@ == self.estados.valores()[k]@,
            decreases self.estados.chaves().len() - i,
        {
            r.push(self.estados.valor_em(i).duplicar());
            i += 1;
        }
        assert(visoes_estados(r@) =~= self.estados());
        r
    }

    /// Keeps a snapshot of the current states.
    pub fn criar_snapshot(&mut self)
        requires
            old(self).bem_formado(),
        ensures
            final(self).bem_formado(),
            final(self).estados() == old(self).estados(),
            final(self).snapshots() == old(self).snapshots().push(old(self).estados()),
            forall|id: Seq<char>| final(self).tem(id) == old(self).tem(id),
            forall|id: Seq<char>| final(self).estado_de(id) == old(self).estado_de(id),
    {
        let copia = self.copiar_estados();
        let ghost antes = self.snapshots();
        self.snapshots.push(copia);
        assert(self.snapshots() =~= antes.push(old(self).estados()));
    }

    /// The latest snapshot, `None` before the first.
    pub fn obter_ultimo_snapshot(&self) -> (r: Option<Vec<EstadoTransacao>>)
        ensures
            r is Some <==> self.snapshots().len() > 0,
            r matches Some(s) ==> visoes_estados(s@) == self.snapshots().last(),
    {
        let n = self.snapshots.len();
        if n == 0 {
            return None;
        }
        let ultimo = &self.snapshots[n - 1];
        let mut r: Vec<EstadoTransacao> = Vec::new();
        let mut i: usize = 0;
        while i < ultimo.len()
            invariant
                i <= ultimo@.len(),
                r@.len() == i,
                forall|k: int| 0 <= k < i ==> (#[trigger] r@[k])@ == ultimo@[k]@,
            decreases ultimo@.len() - i,
        {
            r.push(ultimo[i].duplicar());
            i += 1;
        }
        assert(visoes_estados(r@) =~= self.snapshots().last());
        Some(r)
    }

    /// Whether every state carries a chain hash of 32 bytes.
    pub fn validar_consistencia(&self) -> (r: bool)
        requires
            self.bem_formado(),
        ensures
            r == estados_consistentes(self.estados()),
    {
        let mut i: usize = 0;
        while i < self.estados.len()
            invariant
                self.bem_formado(),
                i <= self.estados.chaves().len(),
                forall|k: int| 0 <= k < i ==> (#[trigger] self.estados()[k]).hash_cadeia.len()
                    == TAMANHO_HASH,
            decreases self.estados.chaves().len() - i,
        {
            if self.estados.valor_em(i).hash_cadeia.len() != TAMANHO_HASH {
                assert(self.estados()[i as int].hash_cadeia.len() != TAMANHO_HASH);
                return false;
            }
            assert(self.estados()[i as int] == self.estados.valores()[i as int]@);
            i += 1;
        }
        true
    }
}

} // verus!
