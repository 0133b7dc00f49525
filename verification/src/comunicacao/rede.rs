//! The peer table: which peers count as active, which need a heartbeat,
//! and which are dropped.

use vstd::prelude::*;
use crate::comunicacao::broadcast::No;

verus! {

/// The default heartbeat timeout in milliseconds: 30 seconds.
pub const TIMEOUT_HEARTBEAT_MS: u64 = 30_000;

/// The default discovery interval in milliseconds: one minute.
pub const INTERVALO_DESCOBERTA_MS: u64 = 60_000;

/// After how long an inactive peer is dropped, in milliseconds: one hour.
pub const INATIVIDADE_MAXIMA_MS: u64 = 3_600_000;

/// After how many failed connections in a row a peer is dropped.
pub const TENTATIVAS_MAXIMAS: u32 = 10;

/// How many availability checks a peer remembers.
pub const HISTORICO_MAXIMO: usize = 100;

#[derive(Clone, Copy, Debug, PartialEq, Eq, Structural)]
pub struct ConfiguracaoRede {
    pub timeout_heartbeat_ms: u64,
    pub intervalo_descoberta_ms: u64,
    pub max_nos_inativos: usize,
    pub timeout_conexao_ms: u64,
}

pub open spec fn configuracao_rede_padrao() -> ConfiguracaoRede {
    ConfiguracaoRede {
        timeout_heartbeat_ms: TIMEOUT_HEARTBEAT_MS,
        intervalo_descoberta_ms: INTERVALO_DESCOBERTA_MS,
        max_nos_inativos: 10,
        timeout_conexao_ms: 10_000,
    }
}

impl Default for ConfiguracaoRede {
    fn default() -> (r: ConfiguracaoRede)
        ensures
            r == configuracao_rede_padrao(),
    {
        ConfiguracaoRede {
            timeout_heartbeat_ms: TIMEOUT_HEARTBEAT_MS,
            intervalo_descoberta_ms: INTERVALO_DESCOBERTA_MS,
            max_nos_inativos: 10,
            timeout_conexao_ms: 10_000,
        }
    }
}

/// What the table knows of a peer. Times are milliseconds on a clock that
/// never goes back.
pub struct StatusNo {
    pub no: No,
    pub ultima_atividade_ms: u64,
    pub tentativas_conexao: u32,
    pub latencia_media_ms: u64,
    pub historico_disponibilidade: Vec<bool>,
}

/// The time since the last activity of a peer; nothing where the clock
/// reads earlier than the activity.
pub open spec fn tempo_parado(ultima_atividade_ms: u64, agora_ms: u64) -> int {
    if agora_ms >= ultima_atividade_ms {
        agora_ms - ultima_atividade_ms
    } else {
        0
    }
}

/// A peer is active exactly where it is marked active and its last
/// activity is less than the heartbeat timeout ago.
pub open spec fn considerado_ativo(
    ativo: bool,
    ultima_atividade_ms: u64,
    agora_ms: u64,
    timeout_ms: u64,
) -> bool {
    ativo && tempo_parado(ultima_atividade_ms, agora_ms) < timeout_ms
}

/// A peer is due a heartbeat once its last activity is more than half the
/// heartbeat timeout ago.
pub open spec fn heartbeat_devido(ultima_atividade_ms: u64, agora_ms: u64, timeout_ms: u64) -> bool {
    tempo_parado(ultima_atividade_ms, agora_ms) > timeout_ms / 2
}

/// A peer is dropped where it is inactive for more than an hour, and where
/// more than ten connections in a row have failed.
pub open spec fn deve_sair(
    ativo: bool,
    ultima_atividade_ms: u64,
    tentativas_conexao: u32,
    agora_ms: u64,
) -> bool {
    (!ativo && tempo_parado(ultima_atividade_ms, agora_ms) > INATIVIDADE_MAXIMA_MS)
        || tentativas_conexao > TENTATIVAS_MAXIMAS
}

/// A history with one more check, cut to its latest hundred.
pub open spec fn historico_com(historico: Seq<bool>, disponivel: bool) -> Seq<bool> {
    let h = historico.push(disponivel);
    if h.len() > HISTORICO_MAXIMO {
        h.skip(h.len() - HISTORICO_MAXIMO)
    } else {
        h
    }
}

/// The health of a network of `total` peers of which `ativos` are active,
/// by the share of active peers: 90 % and more, 70 %, 50 %, less.
#[derive(Clone, Copy, Debug, PartialEq, Eq, Structural)]
pub enum SaudeRede {
    Excelente,
    Boa,
    Regular,
    Critica,
}

pub open spec fn saude_de(ativos: nat, total: nat) -> SaudeRede {
    if total == 0 {
        SaudeRede::Critica
    } else if 10 * ativos >= 9 * total {
        SaudeRede::Excelente
    } else if 10 * ativos >= 7 * total {
        SaudeRede::Boa
    } else if 2 * ativos >= total {
        SaudeRede::Regular
    } else {
        SaudeRede::Critica
    }
}

impl StatusNo {
    /// What the table knows of a peer that was just added at `agora_ms`.
    pub fn novo(no: No, agora_ms: u64) -> (r: StatusNo)
        ensures
            r.no@ == no@,
            r.ultima_atividade_ms == agora_ms,
            r.tentativas_conexao == 0,
            r.latencia_media_ms == 0,
            r.historico_disponibilidade@.len() == 0,
    {
        StatusNo {
            no,
            ultima_atividade_ms: agora_ms,
            tentativas_conexao: 0,
            latencia_media_ms: 0,
            historico_disponibilidade: Vec::new(),
        }
    }

    /// Whether the peer counts as active at `agora_ms`.
    pub fn esta_ativo(&self, agora_ms: u64, timeout_heartbeat_ms: u64) -> (r: bool)
        ensures
            r == considerado_ativo(
                self.no.ativo,
                self.ultima_atividade_ms,
                agora_ms,
                timeout_heartbeat_ms,
            ),
    {
        let parado = if agora_ms >= self.ultima_atividade_ms {
            agora_ms - self.ultima_atividade_ms
        } else {
            0
        };
        self.no.ativo && parado < timeout_heartbeat_ms
    }

    /// Whether the peer is due a heartbeat at `agora_ms`.
    pub fn precisa_heartbeat(&self, agora_ms: u64, timeout_heartbeat_ms: u64) -> (r: bool)
        ensures
            r == heartbeat_devido(self.ultima_atividade_ms, agora_ms, timeout_heartbeat_ms),
    {
        let parado = if agora_ms >= self.ultima_atividade_ms {
            agora_ms - self.ultima_atividade_ms
        } else {
            0
        };
        parado > timeout_heartbeat_ms / 2
    }

    /// Whether the cleanup drops the peer at `agora_ms`.
    pub fn deve_ser_removido(&self, agora_ms: u64) -> (r: bool)
        ensures
            r == deve_sair(
                self.no.ativo,
                self.ultima_atividade_ms,
                self.tentativas_conexao,
                agora_ms,
            ),
    {
        let parado = if agora_ms >= self.ultima_atividade_ms {
            agora_ms - self.ultima_atividade_ms
        } else {
            0
        };
        (!self.no.ativo && parado > INATIVIDADE_MAXIMA_MS) || self.tentativas_conexao
            > TENTATIVAS_MAXIMAS
    }

    /// Notes a check in the history and cuts it to its latest hundred.
    fn anotar(&mut self, disponivel: bool)
        ensures
            final(self).historico_disponibilidade@ == historico_com(
                old(self).historico_disponibilidade@,
                disponivel,
            ),
            final(self).no == old(self).no,
            final(self).ultima_atividade_ms == old(self).ultima_atividade_ms,
            final(self).tentativas_conexao == old(self).tentativas_conexao,
            final(self).latencia_media_ms == old(self).latencia_media_ms,
    {
        self.historico_disponibilidade.push(disponivel);
        let n = self.historico_disponibilidade.len();
        if n > HISTORICO_MAXIMO {
            let recentes = self.historico_disponibilidade.split_off(n - HISTORICO_MAXIMO);
            self.historico_disponibilidade = recentes;
        }
        assert(self.historico_disponibilidade@ =~= historico_com(
            old(self).historico_disponibilidade@,
            disponivel,
        ));
    }

    /// A heartbeat failed: the peer is marked inactive, the failure is
    /// counted and noted.
    pub fn marcar_no_inativo(&mut self)
        ensures
            !final(self).no.ativo,
            final(self).no.id == old(self).no.id,
            final(self).no.endereco == old(self).no.endereco,
            final(self).no.porta == old(self).no.porta,
            final(self).no.ultima_resposta == old(self).no.ultima_resposta,
            final(self).ultima_atividade_ms == old(self).ultima_atividade_ms,
            final(self).latencia_media_ms == old(self).latencia_media_ms,
            final(self).tentativas_conexao == if old(self).tentativas_conexao == u32::MAX {
                u32::MAX
            } else {
                (old(self).tentativas_conexao + 1) as u32
            },
            final(self).historico_disponibilidade@ == historico_com(
                old(self).historico_disponibilidade@,
                false,
            ),
    {
        self.no.ativo = false;
        self.tentativas_conexao = self.tentativas_conexao.saturating_add(1);
        self.anotar(false);
    }

    /// A heartbeat went through at `agora_ms`: the activity is stamped and
    /// the count of failures starts over.
    pub fn registrar_heartbeat(&mut self, agora_ms: u64)
        ensures
            final(self).ultima_atividade_ms == agora_ms,
            final(self).tentativas_conexao == 0,
            final(self).no == old(self).no,
            final(self).latencia_media_ms == old(self).latencia_media_ms,
            final(self).historico_disponibilidade == old(self).historico_disponibilidade,
    {
        self.ultima_atividade_ms = agora_ms;
        self.tentativas_conexao = 0;
    }
}

/// The health of a network of `total` peers of which `ativos` are active.
pub fn saude_rede(ativos: usize, total: usize) -> (r: SaudeRede)
    ensures
        r == saude_de(ativos as nat, total as nat),
{
    let a = ativos as u128;
    let t = total as u128;
    if t == 0 {
        SaudeRede::Critica
    } else if 10 * a >= 9 * t {
        SaudeRede::Excelente
    } else if 10 * a >= 7 * t {
        SaudeRede::Boa
    } else if 2 * a >= t {
        SaudeRede::Regular
    } else {
        SaudeRede::Critica
    }
}

/// Whether place `a` comes before place `b` by latency: the lower latency
/// first, and of two equal latencies the earlier place.
pub open spec fn antes_por_latencia(latencias: Seq<u64>, a: int, b: int) -> bool {
    latencias[a] < latencias[b] || (latencias[a] == latencias[b] && a < b)
}

/// Whether `ordem` lists the places of `latencias` by ascending latency:
/// as many entries as there are places, each a place, each before all that
/// follow it. Every place then stands in it exactly once.
pub open spec fn ordenada_por_latencia(ordem: Seq<usize>, latencias: Seq<u64>) -> bool {
    &&& ordem.len() == latencias.len()
    &&& forall|p: int| 0 <= p < ordem.len() ==> (#[trigger] ordem[p]) < latencias.len()
    &&& forall|p: int, q: int|
        0 <= p < q < ordem.len() ==> antes_por_latencia(latencias, ordem[p] as int, ordem[q] as int)
}

/// The places of the peers by ascending mean latency; peers of one latency
/// keep the order in which they stand.
pub fn ordem_por_latencia(latencias: &Vec<u64>) -> (r: Vec<usize>)
    ensures
        ordenada_por_latencia(r@, latencias@),
{
    let n = latencias.len();
    let mut ordem: Vec<usize> = Vec::new();
    let mut i: usize = 0;
    while i < n
        invariant
            i <= n,
            n == latencias@.len(),
            ordem@.len() == i,
            forall|p: int| 0 <= p < ordem@.len() ==> (#[trigger] ordem@[p]) < i,
            forall|p: int, q: int|
                0 <= p < q < ordem@.len() ==> antes_por_latencia(
                    latencias@,
                    ordem@[p] as int,
                    ordem@[q] as int,
                ),
        decreases n - i,
    {
        let chave = latencias[i];
        let mut lugar: usize = ordem.len();
        while lugar > 0 && latencias[ordem[lugar - 1]] > chave
            invariant
                lugar <= ordem@.len(),
                i < n,
                n == latencias@.len(),
                chave == latencias@[i as int],
                forall|p: int| 0 <= p < ordem@.len() ==> (#[trigger] ordem@[p]) < i,
                forall|p: int| lugar <= p < ordem@.len() ==> latencias@[ordem@[p] as int] > chave,
            decreases lugar,
        {
            lugar -= 1;
        }
        let ghost antes = ordem@;
        ordem.insert(lugar, i);
        proof {
            assert forall|p: int, q: int| 0 <= p < q < ordem@.len() implies antes_por_latencia(
                latencias@,
                ordem@[p] as int,
                ordem@[q] as int,
            ) by {
                let p0 = if p < lugar {
                    p
                } else {
                    p - 1
                };
                let q0 = if q < lugar {
                    q
                } else {
                    q - 1
                };
                if p == lugar {
                    assert(latencias@[antes[q0] as int] > chave);
                } else if q == lugar {
                    assert(antes[p0] < i);
                    if lugar > 0 {
                        assert(antes_por_latencia(latencias@, antes[p0] as int, antes[lugar - 1] as int)
                            || p0 == lugar - 1);
                    }
                } else {
                    assert(antes_por_latencia(latencias@, antes[p0] as int, antes[q0] as int));
                }
            }
        }
        i += 1;
    }
    ordem
}

/// Adds a bootstrap address to the list unless it is there already.
pub fn adicionar_seed(seeds: &mut Vec<String>, endereco: String)
    ensures
        final(seeds)@.len() == if exists|i: int|
            0 <= i < old(seeds)@.len() && (#[trigger] old(seeds)@[i])@ == endereco@ {
            old(seeds)@.len()
        } else {
            old(seeds)@.len() + 1
        },
        forall|i: int| 0 <= i < old(seeds)@.len() ==> final(seeds)@[i] == old(seeds)@[i],
        final(seeds)@.len() > old(seeds)@.len() ==> final(seeds)@.last()@ == endereco@,
{
    let mut i: usize = 0;
    while i < seeds.len()
        invariant
            i <= seeds@.len(),
            seeds@ == old(seeds)@,
            forall|k: int| 0 <= k < i ==> (#[trigger] seeds@[k])@ != endereco@,
        decreases seeds@.len() - i,
    {
        if seeds[i] == endereco {
            return ;
        }
        i += 1;
    }
    seeds.push(endereco);
}

} // verus!
