//! The rotation of the queue: after a round the head moves to the tail.

use vstd::prelude::*;
use std::collections::VecDeque;

verus! {

/// The queue after one rotation: the head moved to the tail.
pub open spec fn rotacionada(fila: Seq<Seq<char>>) -> Seq<Seq<char>> {
    if fila.len() == 0 {
        fila
    } else {
        fila.drop_first().push(fila[0])
    }
}

/// The queue after `n` rotations.
pub open spec fn rotacionada_n(fila: Seq<Seq<char>>, n: nat) -> Seq<Seq<char>>
    decreases n,
{
    if n == 0 {
        fila
    } else {
        rotacionada(rotacionada_n(fila, (n - 1) as nat))
    }
}

/// After `k` rotations the first `k` nodes stand behind the others.
pub proof fn lema_rotacoes(fila: Seq<Seq<char>>, k: nat)
    requires
        k <= fila.len(),
    ensures
        rotacionada_n(fila, k) == fila.skip(k as int) + fila.take(k as int),
    decreases k,
{
    if k == 0 {
        assert(fila.skip(0) + fila.take(0) =~= fila);
    } else {
        lema_rotacoes(fila, (k - 1) as nat);
        let antes = fila.skip(k - 1) + fila.take(k - 1);
        assert(antes.len() == fila.len());
        assert(rotacionada(antes) =~= fila.skip(k as int) + fila.take(k as int));
    }
}

/// Rotation is a bijection of period `|Q|`: after as many rotations as the
/// queue has nodes, the queue is in its original order.
pub proof fn lei_rotacao_completa(fila: Seq<Seq<char>>)
    ensures
        rotacionada_n(fila, fila.len()) == fila,
{
    lema_rotacoes(fila, fila.len());
    assert(fila.skip(fila.len() as int) + fila.take(fila.len() as int) =~= fila);
}

pub struct GerenciadorRotacao {
    fila_nos: VecDeque<String>,
    historico_processamento: Vec<String>,
}

impl GerenciadorRotacao {
    /// The node ids of the queue, head first.
    pub closed spec fn fila(&self) -> Seq<Seq<char>> {
        Seq::new(self.fila_nos@.len(), |i: int| self.fila_nos@[i]@)
    }

    /// The nodes that were rotated away from the head, oldest first.
    pub closed spec fn historico(&self) -> Seq<Seq<char>> {
        Seq::new(self.historico_processamento@.len(), |i: int| self.historico_processamento@[i]@)
    }

    pub fn new() -> (r: GerenciadorRotacao)
        ensures
            r.fila().len() == 0,
            r.historico().len() == 0,
    {
        GerenciadorRotacao { fila_nos: VecDeque::new(), historico_processamento: Vec::new() }
    }

    /// Replaces the queue by `nos`, head first.
    pub fn inicializar_fila(&mut self, nos: Vec<String>)
        ensures
            final(self).fila() == Seq::new(nos@.len(), |i: int| nos@[i]@),
            final(self).historico() == old(self).historico(),
    {
        self.fila_nos.clear();
        let mut i: usize = 0;
        while i < nos.len()
            invariant
                i <= nos@.len(),
                self.historico() == old(self).historico(),
                self.fila_nos@.len() == i,
                forall|k: int| 0 <= k < i ==> (#[trigger] self.fila_nos@[k])@ == nos@[k]@,
            decreases nos@.len() - i,
        {
            self.fila_nos.push_back(nos[i].clone());
            i += 1;
        }
        assert(self.fila() =~= Seq::new(nos@.len(), |i: int| nos@[i]@));
    }

    /// Moves the head of the queue to its tail and notes it in the history.
    /// An empty queue stays as it is.
    pub fn rotacionar_fila(&mut self)
        ensures
            final(self).fila() == rotacionada(old(self).fila()),
            final(self).historico() == if old(self).fila().len() == 0 {
                old(self).historico()
            } else {
                old(self).historico().push(old(self).fila()[0])
            },
    {
        let ghost antes = self.fila();
        let ghost notas = self.historico();
        match self.fila_nos.pop_front() {
            Some(no_processador) => {
                self.historico_processamento.push(no_processador.clone());
                self.fila_nos.push_back(no_processador);
                assert(self.fila() =~= rotacionada(antes));
                assert(self.historico() =~= notas.push(antes[0]));
            },
            None => {
                assert(self.fila() =~= antes);
            },
        }
    }

    /// The head of the queue: the node that processes next.
    pub fn obter_proximo_processador(&self) -> (r: Option<String>)
        ensures
            r is Some <==> self.fila().len() > 0,
            r matches Some(id) ==> id@ == self.fila()[0],
    {
        if self.fila_nos.len() == 0 {
            None
        } else {
            Some(self.fila_nos[0].clone())
        }
    }

    /// The nodes that were rotated away from the head, oldest first.
    pub fn obter_historico(&self) -> (r: Vec<String>)
        ensures
            Seq::new(r@.len(), |i: int| r@[i]@) == self.historico(),
    {
        let mut r: Vec<String> = Vec::new();
        let mut i: usize = 0;
        while i < self.historico_processamento.len()
            invariant
                i <= self.historico_processamento@.len(),
                r@.len() == i,
                forall|k: int|
                    0 <= k < i ==> (#[trigger] r@[k])@ == self.historico_processamento@[k]@,
            decreases self.historico_processamento@.len() - i,
        {
            r.push(self.historico_processamento[i].clone());
            i += 1;
        }
        assert(Seq::new(r@.len(), |i: int| r@[i]@) =~= self.historico());
        r
    }

    /// The node ids of the queue, head first.
    pub fn obter_fila_atual(&self) -> (r: Vec<String>)
        ensures
            Seq::new(r@.len(), |i: int| r@[i]@) == self.fila(),
    {
        let mut r: Vec<String> = Vec::new();
        let mut i: usize = 0;
        while i < self.fila_nos.len()
            invariant
                i <= self.fila_nos@.len(),
                r@.len() == i,
                forall|k: int| 0 <= k < i ==> (#[trigger] r@[k])@ == self.fila_nos@[k]@,
            decreases self.fila_nos@.len() - i,
        {
            r.push(self.fila_nos[i].clone());
            i += 1;
        }
        assert(Seq::new(r@.len(), |i: int| r@[i]@) =~= self.fila());
        r
    }
}

} // verus!
