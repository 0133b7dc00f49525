//! The voting-consistency analysis: voters whose transaction hash diverges
//! from the largest group are recorded, and reported once they have
//! diverged often enough.

use vstd::prelude::*;
use crate::consenso::tipos::{bytes_iguais, ValidacaoConsenso, ValidacaoView, visoes_votos};
use crate::consenso::validacao::quorum::{contagem, contar, hashes_de_transacao, votos_transacao};
use crate::tempo::Instante;

verus! {

/// How many suspicions make a node malicious.
pub const THRESHOLD_SUSPEITA: usize = 3;

#[derive(Clone, Copy, Debug, PartialEq, Eq, Structural)]
pub enum TipoSuspeita {
    HashInconsistente,
    AssinaturaInvalida,
    TempoResposta,
    ComportamentoAnomalo,
}

pub struct ComportamentoSuspeito {
    pub no_id: String,
    pub tipo_suspeita: TipoSuspeita,
    pub timestamp: Instante,
    pub detalhes: String,
}

/// What a suspicion holds, as mathematical values.
pub struct SuspeitaView {
    pub no_id: Seq<char>,
    pub tipo_suspeita: TipoSuspeita,
    pub timestamp: Instante,
    pub detalhes: Seq<char>,
}

impl View for ComportamentoSuspeito {
    type V = SuspeitaView;

    open spec fn view(&self) -> SuspeitaView {
        SuspeitaView {
            no_id: self.no_id@,
            tipo_suspeita: self.tipo_suspeita,
            timestamp: self.timestamp,
            detalhes: self.detalhes@,
        }
    }
}

impl ComportamentoSuspeito {
    /// A copy with the same contents.
    pub fn duplicar(&self) -> (r: ComportamentoSuspeito)
        ensures
            r@ == self@,
    {
        ComportamentoSuspeito {
            no_id: self.no_id.clone(),
            tipo_suspeita: self.tipo_suspeita,
            timestamp: self.timestamp,
            detalhes: self.detalhes.clone(),
        }
    }
}

/// The views of a list of suspicions, in order.
pub open spec fn visoes_suspeitas(s: Seq<ComportamentoSuspeito>) -> Seq<SuspeitaView> {
    Seq::new(s.len(), |i: int| s[i]@)
}

/// Whether no value has more votes than the one at place `i`.
pub open spec fn maior_grupo_em(hashes: Seq<Seq<u8>>, i: int) -> bool {
    forall|j: int|
        0 <= j < hashes.len() ==> contagem(hashes, #[trigger] hashes[j]) <= contagem(
            hashes,
            hashes[i],
        )
}

/// Whether place `i` is the first that holds a value of the largest group.
pub open spec fn primeiro_maior_grupo(hashes: Seq<Seq<u8>>, i: int) -> bool {
    &&& 0 <= i < hashes.len()
    &&& maior_grupo_em(hashes, i)
    &&& forall|k: int| 0 <= k < i ==> !maior_grupo_em(hashes, k)
}

/// The majority hash of the votes: the value of the largest group, the one
/// voted for first where several groups are largest.
pub open spec fn hash_majoritario(hashes: Seq<Seq<u8>>) -> Seq<u8>
    recommends
        hashes.len() > 0,
{
    hashes[choose|i: int| primeiro_maior_grupo(hashes, i)]
}

/// Only one place is the first of the largest group.
pub proof fn lema_primeiro_maior_unico(hashes: Seq<Seq<u8>>, i: int)
    requires
        primeiro_maior_grupo(hashes, i),
    ensures
        hash_majoritario(hashes) == hashes[i],
{
    let j = choose|j: int| primeiro_maior_grupo(hashes, j);
    if j < i {
        assert(!maior_grupo_em(hashes, j));
    } else if i < j {
        assert(!maior_grupo_em(hashes, i));
    }
}

/// The voters outside the group of `h`, each once, in the order of their
/// first diverging vote.
pub open spec fn divergentes(votos: Seq<ValidacaoView>, h: Seq<u8>) -> Seq<Seq<char>>
    decreases votos.len(),
{
    if votos.len() == 0 {
        Seq::empty()
    } else {
        let antes = divergentes(votos.drop_last(), h);
        let v = votos.last();
        if v.hash_transacao != h && !antes.contains(v.validador_id) {
            antes.push(v.validador_id)
        } else {
            antes
        }
    }
}

/// The suspicion recorded against a diverging voter.
pub open spec fn suspeita_de(no_id: Seq<char>, agora: Instante) -> SuspeitaView {
    SuspeitaView {
        no_id,
        tipo_suspeita: TipoSuspeita::HashInconsistente,
        timestamp: agora,
        detalhes: "Hash inconsistente com maioria"@,
    }
}

/// The suspicions recorded against a list of voters, in order.
pub open spec fn suspeitas_de(ids: Seq<Seq<char>>, agora: Instante) -> Seq<SuspeitaView> {
    Seq::new(ids.len(), |i: int| suspeita_de(ids[i], agora))
}

/// How many suspicions the history holds against `no_id`.
pub open spec fn contagem_suspeitas(historico: Seq<SuspeitaView>, no_id: Seq<char>) -> nat
    decreases historico.len(),
{
    if historico.len() == 0 {
        0
    } else {
        contagem_suspeitas(historico.drop_last(), no_id) + if historico.last().no_id == no_id {
            1nat
        } else {
            0nat
        }
    }
}

/// Whether one more suspicion against `no_id` reaches the limit.
pub open spec fn atinge_limite(historico: Seq<SuspeitaView>, no_id: Seq<char>, limite: nat) -> bool {
    contagem_suspeitas(historico, no_id) + 1 >= limite
}

/// Those of `ids` whom one more suspicion makes malicious, in order.
pub open spec fn acusados(ids: Seq<Seq<char>>, historico: Seq<SuspeitaView>, limite: nat) -> Seq<
    Seq<char>,
>
    decreases ids.len(),
{
    if ids.len() == 0 {
        Seq::empty()
    } else {
        let antes = acusados(ids.drop_last(), historico, limite);
        if atinge_limite(historico, ids.last(), limite) {
            antes.push(ids.last())
        } else {
            antes
        }
    }
}

/// The texts of a list of strings.
pub open spec fn textos(ids: Seq<String>) -> Seq<Seq<char>> {
    Seq::new(ids.len(), |i: int| ids[i]@)
}

/// The first place of the largest group of equal values, `None` for no
/// votes.
pub fn indice_maior_grupo(votos: &Vec<Vec<u8>>) -> (r: Option<usize>)
    ensures
        r is None <==> votos@.len() == 0,
        r matches Some(i) ==> primeiro_maior_grupo(
            Seq::new(votos@.len(), |k: int| votos@[k]@),
            i as int,
        ),
{
    let ghost todos = Seq::new(votos@.len(), |k: int| votos@[k]@);
    if votos.len() == 0 {
        return None;
    }
    let mut melhor: usize = 0;
    let mut n_melhor = contar(votos, votos[0].as_slice());
    assert(todos[0] == votos@[0]@);
    let mut i: usize = 1;
    while i < votos.len()
        invariant
            1 <= i <= votos@.len(),
            todos == Seq::new(votos@.len(), |k: int| votos@[k]@),
            melhor < i,
            n_melhor == contagem(todos, todos[melhor as int]),
            forall|k: int| 0 <= k < i ==> contagem(todos, #[trigger] todos[k]) <= n_melhor,
            forall|k: int| 0 <= k < melhor ==> contagem(todos, #[trigger] todos[k]) < n_melhor,
        decreases votos@.len() - i,
    {
        let n = contar(votos, votos[i].as_slice());
        assert(todos[i as int] == votos@[i as int]@);
        if n > n_melhor {
            melhor = i;
            n_melhor = n;
        }
        i += 1;
    }
    assert(primeiro_maior_grupo(todos, melhor as int)) by {
        assert forall|k: int| 0 <= k < melhor implies !maior_grupo_em(todos, k) by {
            assert(contagem(todos, todos[melhor as int]) > contagem(todos, todos[k]));
        }
    }
    Some(melhor)
}

/// Whether `id` stands in `ids`.
pub fn contem_texto(ids: &Vec<String>, id: &String) -> (r: bool)
    ensures
        r == textos(ids@).contains(id@),
{
    let mut i: usize = 0;
    while i < ids.len()
        invariant
            i <= ids@.len(),
            forall|k: int| 0 <= k < i ==> textos(ids@)[k] != id@,
        decreases ids@.len() - i,
    {
        if ids[i] == *id {
            assert(textos(ids@)[i as int] == id@);
            return true;
        }
        i += 1;
    }
    false
}

pub struct DetectorMaliciosos {
    historico_suspeitas: Vec<ComportamentoSuspeito>,
    threshold_suspeita: usize,
}

impl DetectorMaliciosos {
    /// The suspicions recorded so far, oldest first.
    pub closed spec fn historico(&self) -> Seq<SuspeitaView> {
        visoes_suspeitas(self.historico_suspeitas@)
    }

    /// How many suspicions make a node malicious.
    pub closed spec fn limite(&self) -> usize {
        self.threshold_suspeita
    }

    /// A detector with no history that reports a node at its third
    /// suspicion.
    pub fn new() -> (r: DetectorMaliciosos)
        ensures
            r.historico().len() == 0,
            r.limite() == THRESHOLD_SUSPEITA,
    {
        DetectorMaliciosos {
            historico_suspeitas: Vec::new(),
            threshold_suspeita: THRESHOLD_SUSPEITA,
        }
    }

    /// How many of the first `ate` suspicions are against `no_id`.
    fn contar_suspeitas(&self, no_id: &String, ate: usize) -> (r: usize)
        requires
            ate <= self.historico().len(),
        ensures
            r == contagem_suspeitas(self.historico().take(ate as int), no_id@),
            r <= ate,
    {
        let ghost h = self.historico();
        let mut n: usize = 0;
        let mut i: usize = 0;
        assert(h.take(0) =~= Seq::<SuspeitaView>::empty());
        while i < ate
            invariant
                i <= ate <= self.historico_suspeitas@.len(),
                h == self.historico(),
                n == contagem_suspeitas(h.take(i as int), no_id@),
                n <= i,
            decreases ate - i,
        {
            assert(h.take(i + 1).drop_last() =~= h.take(i as int));
            assert(h.take(i + 1).last() == self.historico_suspeitas@[i as int]@);
            if self.historico_suspeitas[i].no_id == *no_id {
                n += 1;
            }
            i += 1;
        }
        n
    }

    /// Records a suspicion against every voter whose transaction hash is
    /// not the majority hash, and returns those whom that suspicion makes
    /// malicious.
    pub fn analisar_validacoes(&mut self, validacoes: &[ValidacaoConsenso], agora: Instante) -> (r:
        Vec<String>)
        ensures
            final(self).limite() == old(self).limite(),
            validacoes@.len() == 0 ==> r@.len() == 0 && final(self).historico() == old(self).historico(),
            validacoes@.len() > 0 ==> {
                let votos = visoes_votos(validacoes@);
                let ids = divergentes(votos, hash_majoritario(votos_transacao(votos)));
                &&& final(self).historico() == old(self).historico() + suspeitas_de(ids, agora)
                &&& textos(r@) == acusados(ids, old(self).historico(), old(self).limite() as nat)
            },
    {
        let ghost votos = visoes_votos(validacoes@);
        let hashes = hashes_de_transacao(validacoes);
        assert(hashes@.len() == votos_transacao(votos).len());
        let melhor = match indice_maior_grupo(&hashes) {
            Some(i) => i,
            None => {
                return Vec::new();
            },
        };
        let ghost h = hashes@[melhor as int]@;
        proof {
            lema_primeiro_maior_unico(votos_transacao(votos), melhor as int);
        }
        let mut ids: Vec<String> = Vec::new();
        let mut i: usize = 0;
        assert(votos.take(0) =~= Seq::<ValidacaoView>::empty());
        assert(textos(ids@) =~= divergentes(votos.take(0), h));
        while i < validacoes.len()
            invariant
                i <= validacoes@.len(),
                melhor < hashes@.len(),
                h == hashes@[melhor as int]@,
                votos == visoes_votos(validacoes@),
                textos(ids@) == divergentes(votos.take(i as int), h),
            decreases validacoes@.len() - i,
        {
            let ghost antes = textos(ids@);
            assert(votos.take(i + 1).drop_last() =~= votos.take(i as int));
            assert(votos.take(i + 1).last() == validacoes@[i as int]@);
            let voto = &validacoes[i];
            if !bytes_iguais(voto.hash_transacao.as_slice(), hashes[melhor].as_slice())
                && !contem_texto(&ids, &voto.validador_id) {
                ids.push(voto.validador_id.clone());
                assert(textos(ids@) =~= antes.push(voto.validador_id@));
            }
            i += 1;
        }
        assert(votos.take(validacoes@.len() as int) =~= votos);
        let ghost divs = textos(ids@);
        let ghost antigo = self.historico();
        let n_antigo = self.historico_suspeitas.len();
        let mut nos_maliciosos: Vec<String> = Vec::new();
        let mut k: usize = 0;
        assert(divs.take(0) =~= Seq::<Seq<char>>::empty());
        assert(self.historico() =~= antigo + suspeitas_de(divs.take(0), agora));
        assert(textos(nos_maliciosos@) =~= acusados(divs.take(0), antigo, self.limite() as nat));
        while k < ids.len()
            invariant
                k <= ids@.len(),
                divs == textos(ids@),
                n_antigo == antigo.len(),
                self.limite() == old(self).limite(),
                self.historico() == antigo + suspeitas_de(divs.take(k as int), agora),
                textos(nos_maliciosos@) == acusados(divs.take(k as int), antigo, self.limite() as nat),
            decreases ids@.len() - k,
        {
            let ghost acusados_antes = textos(nos_maliciosos@);
            let ghost historico_antes = self.historico();
            assert(divs.take(k + 1).drop_last() =~= divs.take(k as int));
            assert(divs.take(k + 1).last() == ids@[k as int]@);
            assert(historico_antes.take(n_antigo as int) =~= antigo);
            let anteriores = self.contar_suspeitas(&ids[k], n_antigo);
            self.historico_suspeitas.push(
                ComportamentoSuspeito {
                    no_id: ids[k].clone(),
                    tipo_suspeita: TipoSuspeita::HashInconsistente,
                    timestamp: agora,
                    detalhes: "Hash inconsistente com maioria".to_owned(),
                },
            );
            proof {
                let nova = suspeita_de(divs[k as int], agora);
                assert(self.historico() =~= historico_antes.push(nova));
                assert(suspeitas_de(divs.take(k + 1), agora) =~= suspeitas_de(
                    divs.take(k as int),
                    agora,
                ).push(nova));
            }
            assert(self.historico() =~= antigo + suspeitas_de(divs.take(k + 1), agora));
            if self.threshold_suspeita == 0 || anteriores >= self.threshold_suspeita - 1 {
                nos_maliciosos.push(ids[k].clone());
                assert(textos(nos_maliciosos@) =~= acusados_antes.push(ids@[k as int]@));
            }
            k += 1;
        }
        assert(divs.take(ids@.len() as int) =~= divs);
        nos_maliciosos
    }

    /// The suspicions recorded so far, oldest first.
    pub fn obter_historico_suspeitas(&self) -> (r: Vec<ComportamentoSuspeito>)
        ensures
            visoes_suspeitas(r@) == self.historico(),
    {
        let mut r: Vec<ComportamentoSuspeito> = Vec::new();
        let mut i: usize = 0;
        while i < self.historico_suspeitas.len()
            invariant
                i <= self.historico_suspeitas@.len(),
                r@.len() == i,
                forall|k: int| 0 <= k < i ==> (#[trigger] r@[k])@ == self.historico_suspeitas@[k]@,
            decreases self.historico_suspeitas@.len() - i,
        {
            r.push(self.historico_suspeitas[i].duplicar());
            i += 1;
        }
        assert(visoes_suspeitas(r@) =~= self.historico());
        r
    }

    /// Forgets every suspicion.
    pub fn limpar_historico(&mut self)
        ensures
            final(self).historico().len() == 0,
            final(self).limite() == old(self).limite(),
    {
        self.historico_suspeitas.clear();
    }
}

} // verus!
