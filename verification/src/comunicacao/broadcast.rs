//! The fan-out of a broadcast: who is sent to, in which batches, and the
//! delivery counters.

use vstd::prelude::*;

use crate::tempo::Instante;

verus! {

/// The default timeout of a send, in milliseconds: 30 seconds.
pub const TIMEOUT_PADRAO_MS: u64 = 30_000;

/// The default number of attempts of a send.
pub const MAX_TENTATIVAS_PADRAO: u32 = 3;

/// A peer record.
pub struct No {
    pub id: String,
    pub endereco: String,
    pub porta: u16,
    pub ativo: bool,
    pub ultima_resposta: Instante,
}

/// What a peer record holds, as mathematical values.
pub struct ParView {
    pub id: Seq<char>,
    pub endereco: Seq<char>,
    pub porta: u16,
    pub ativo: bool,
    pub ultima_resposta: Instante,
}

impl View for No {
    type V = ParView;

    open spec fn view(&self) -> ParView {
        ParView {
            id: self.id@,
            endereco: self.endereco@,
            porta: self.porta,
            ativo: self.ativo,
            ultima_resposta: self.ultima_resposta,
        }
    }
}

impl No {
    /// A copy with the same contents.
    pub fn duplicar(&self) -> (r: No)
        ensures
            r@ == self@,
    {
        No {
            id: self.id.clone(),
            endereco: self.endereco.clone(),
            porta: self.porta,
            ativo: self.ativo,
            ultima_resposta: self.ultima_resposta,
        }
    }
}

/// The views of a list of peers, in order.
pub open spec fn visoes_pares(nos: Seq<No>) -> Seq<ParView> {
    Seq::new(nos.len(), |i: int| nos[i]@)
}

/// The peers of the list that are marked active, in order.
pub open spec fn so_ativos(nos: Seq<ParView>) -> Seq<ParView>
    decreases nos.len(),
{
    if nos.len() == 0 {
        Seq::empty()
    } else if nos.last().ativo {
        so_ativos(nos.drop_last()).push(nos.last())
    } else {
        so_ativos(nos.drop_last())
    }
}

/// Batch `i` of a fan-out of `fator`: the peers from place `i * fator` up
/// to the next batch or the end.
pub open spec fn lote(nos: Seq<ParView>, fator: nat, i: nat) -> Seq<ParView> {
    let inicio = (i * fator) as int;
    let fim = if inicio + fator <= nos.len() {
        inicio + fator
    } else {
        nos.len() as int
    };
    nos.subrange(inicio, fim)
}

#[derive(Clone, Copy, Debug, PartialEq, Eq, Structural)]
pub struct EstatisticasBroadcast {
    pub mensagens_enviadas: u64,
    pub mensagens_entregues: u64,
    pub mensagens_falharam: u64,
    pub tempo_medio_entrega_ms: u64,
}

/// `a + b`, held at the largest `u64`.
pub open spec fn soma_limitada(a: u64, b: int) -> u64 {
    if a + b > u64::MAX {
        u64::MAX
    } else {
        (a + b) as u64
    }
}

pub struct SistemaBroadcast {
    timeout_padrao_ms: u64,
    max_tentativas: u32,
    estatisticas: EstatisticasBroadcast,
}

impl SistemaBroadcast {
    pub closed spec fn timeout_ms(&self) -> u64 {
        self.timeout_padrao_ms
    }

    pub closed spec fn tentativas(&self) -> u32 {
        self.max_tentativas
    }

    pub closed spec fn estatisticas(&self) -> EstatisticasBroadcast {
        self.estatisticas
    }

    /// A broadcaster with a timeout of 30 seconds per send and three
    /// attempts.
    pub fn new() -> (r: SistemaBroadcast)
        ensures
            r.timeout_ms() == TIMEOUT_PADRAO_MS,
            r.tentativas() == MAX_TENTATIVAS_PADRAO,
            r.estatisticas() == (EstatisticasBroadcast {
                mensagens_enviadas: 0,
                mensagens_entregues: 0,
                mensagens_falharam: 0,
                tempo_medio_entrega_ms: 0,
            }),
    {
        SistemaBroadcast {
            timeout_padrao_ms: TIMEOUT_PADRAO_MS,
            max_tentativas: MAX_TENTATIVAS_PADRAO,
            estatisticas: EstatisticasBroadcast {
                mensagens_enviadas: 0,
                mensagens_entregues: 0,
                mensagens_falharam: 0,
                tempo_medio_entrega_ms: 0,
            },
        }
    }

    /// The peers that a broadcast sends to: those marked active, in order.
    pub fn destinos(&self, nos: &[No]) -> (r: Vec<No>)
        ensures
            visoes_pares(r@) == so_ativos(visoes_pares(nos@)),
    {
        let ghost todos = visoes_pares(nos@);
        let mut r: Vec<No> = Vec::new();
        let mut i: usize = 0;
        assert(todos.take(0) =~= Seq::<ParView>::empty());
        assert(visoes_pares(r@) =~= so_ativos(todos.take(0)));
        while i < nos.len()
            invariant
                i <= nos@.len(),
                todos == visoes_pares(nos@),
                visoes_pares(r@) == so_ativos(todos.take(i as int)),
            decreases nos@.len() - i,
        {
            let ghost antes = visoes_pares(r@);
            assert(todos.take(i + 1).drop_last() =~= todos.take(i as int));
            assert(todos.take(i + 1).last() == nos@[i as int]@);
            if nos[i].ativo {
                r.push(nos[i].duplicar());
                assert(visoes_pares(r@) =~= antes.push(nos@[i as int]@));
            }
            i += 1;
        }
        assert(todos.take(nos@.len() as int) =~= todos);
        r
    }

    /// Batch `i` of a fan-out of `fator_fanout` over `nos`.
    pub fn lote_de_fanout(&self, nos: &[No], fator_fanout: usize, i: usize) -> (r: Vec<No>)
        requires
            fator_fanout > 0,
            i * fator_fanout <= nos@.len(),
        ensures
            visoes_pares(r@) == lote(visoes_pares(nos@), fator_fanout as nat, i as nat),
    {
        let total = nos.len();
        assert(i * fator_fanout <= total);
        let inicio = i * fator_fanout;
        let fim = if nos.len() - inicio >= fator_fanout {
            inicio + fator_fanout
        } else {
            nos.len()
        };
        let mut r: Vec<No> = Vec::new();
        let mut k: usize = inicio;
        while k < fim
            invariant
                inicio <= k <= fim <= nos@.len(),
                r@.len() == k - inicio,
                forall|j: int| 0 <= j < r@.len() ==> (#[trigger] r@[j])@ == nos@[inicio + j]@,
            decreases fim - k,
        {
            r.push(nos[k].duplicar());
            k += 1;
        }
        assert(visoes_pares(r@) =~= lote(visoes_pares(nos@), fator_fanout as nat, i as nat));
        r
    }

    /// Counts a broadcast to `total_nos` peers of which `sucessos` answered.
    pub fn registrar_envio(&mut self, total_nos: usize, sucessos: usize)
        requires
            sucessos <= total_nos,
        ensures
            final(self).timeout_ms() == old(self).timeout_ms(),
            final(self).tentativas() == old(self).tentativas(),
            final(self).estatisticas() == (EstatisticasBroadcast {
                mensagens_enviadas: soma_limitada(
                    old(self).estatisticas().mensagens_enviadas,
                    total_nos as int,
                ),
                mensagens_entregues: soma_limitada(
                    old(self).estatisticas().mensagens_entregues,
                    sucessos as int,
                ),
                mensagens_falharam: soma_limitada(
                    old(self).estatisticas().mensagens_falharam,
                    total_nos - sucessos,
                ),
                ..old(self).estatisticas()
            }),
    {
        self.estatisticas.mensagens_enviadas = self.estatisticas.mensagens_enviadas.saturating_add(
            total_nos as u64,
        );
        self.estatisticas.mensagens_entregues =
        self.estatisticas.mensagens_entregues.saturating_add(sucessos as u64);
        self.estatisticas.mensagens_falharam = self.estatisticas.mensagens_falharam.saturating_add(
            (total_nos - sucessos) as u64,
        );
    }

    /// Sets the mean delivery time, which the caller keeps as a moving
    /// average.
    pub fn registrar_tempo_medio(&mut self, tempo_medio_ms: u64)
        ensures
            final(self).timeout_ms() == old(self).timeout_ms(),
            final(self).tentativas() == old(self).tentativas(),
            final(self).estatisticas() == (EstatisticasBroadcast {
                tempo_medio_entrega_ms: tempo_medio_ms,
                ..old(self).estatisticas()
            }),
    {
        self.estatisticas.tempo_medio_entrega_ms = tempo_medio_ms;
    }

    pub fn obter_estatisticas(&self) -> (r: EstatisticasBroadcast)
        ensures
            r == self.estatisticas(),
    {
        self.estatisticas
    }

    pub fn configurar_timeout(&mut self, timeout_ms: u64)
        ensures
            final(self).timeout_ms() == timeout_ms,
            final(self).tentativas() == old(self).tentativas(),
            final(self).estatisticas() == old(self).estatisticas(),
    {
        self.timeout_padrao_ms = timeout_ms;
    }

    pub fn configurar_max_tentativas(&mut self, max_tentativas: u32)
        ensures
            final(self).tentativas() == max_tentativas,
            final(self).timeout_ms() == old(self).timeout_ms(),
            final(self).estatisticas() == old(self).estatisticas(),
    {
        self.max_tentativas = max_tentativas;
    }
}

} // verus!
