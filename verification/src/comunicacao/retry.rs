//! The retry policy: what follows each attempt of a send.

use vstd::prelude::*;

verus! {

/// The default number of attempts.
pub const MAX_TENTATIVAS_RETRY: u32 = 3;

/// The default first delay, in milliseconds.
pub const DELAY_INICIAL_MS: u64 = 100;

/// The default cap of a delay, in milliseconds: 30 seconds.
pub const DELAY_MAXIMO_MS: u64 = 30_000;

/// How long a sender waits for its retries in all, in milliseconds: five
/// minutes.
pub const ESPERA_TOTAL_MS: u64 = 300_000;

/// What follows a retry.
#[derive(Clone, Copy, Debug, PartialEq, Eq, Structural)]
pub enum DecisaoRetry {
    /// The send went through: the entry leaves the queue.
    Entregue,
    /// The attempts are used up: the entry leaves the queue as failed.
    FalhaDefinitiva,
    /// Another attempt is scheduled; the number is that of the attempts
    /// made so far.
    Reagendar(u32),
}

/// What follows a retry of an entry that had made `tentativa_atual`
/// attempts: delivered on success; else one more attempt is counted, and
/// the entry fails for good once the count reaches `max_tentativas`.
pub open spec fn decisao(tentativa_atual: u32, max_tentativas: u32, sucesso: bool) -> DecisaoRetry {
    if sucesso {
        DecisaoRetry::Entregue
    } else if tentativa_atual + 1 >= max_tentativas {
        DecisaoRetry::FalhaDefinitiva
    } else {
        DecisaoRetry::Reagendar((tentativa_atual + 1) as u32)
    }
}

/// What follows a retry.
pub fn decidir(tentativa_atual: u32, max_tentativas: u32, sucesso: bool) -> (r: DecisaoRetry)
    ensures
        r == decisao(tentativa_atual, max_tentativas, sucesso),
{
    if sucesso {
        DecisaoRetry::Entregue
    } else if tentativa_atual == u32::MAX || tentativa_atual + 1 >= max_tentativas {
        DecisaoRetry::FalhaDefinitiva
    } else {
        DecisaoRetry::Reagendar(tentativa_atual + 1)
    }
}

/// A delay held at the cap.
pub fn limitar_delay(delay_ms: u64, delay_maximo_ms: u64) -> (r: u64)
    ensures
        r == if delay_ms <= delay_maximo_ms {
            delay_ms
        } else {
            delay_maximo_ms
        },
{
    if delay_ms <= delay_maximo_ms {
        delay_ms
    } else {
        delay_maximo_ms
    }
}

/// Whether a retry that is due at `proximo_retry_ms` is ready at
/// `agora_ms`.
pub fn pronto_para_retry(agora_ms: u64, proximo_retry_ms: u64) -> (r: bool)
    ensures
        r == (agora_ms >= proximo_retry_ms),
{
    agora_ms >= proximo_retry_ms
}

/// Whether a sender that began at `inicio_ms` has waited out its five
/// minutes at `agora_ms`.
pub fn espera_esgotada(inicio_ms: u64, agora_ms: u64) -> (r: bool)
    ensures
        r == (agora_ms >= inicio_ms + ESPERA_TOTAL_MS),
{
    match inicio_ms.checked_add(ESPERA_TOTAL_MS) {
        Some(fim) => agora_ms >= fim,
        None => false,
    }
}

/// How a wait for retries ends.
#[derive(Clone, Copy, Debug, PartialEq, Eq, Structural)]
pub enum DesfechoEspera {
    Entregue,
    FalhaDefinitiva,
    Expirada,
}

#[derive(Clone, Copy, Debug, PartialEq, Eq, Structural)]
pub struct EstatisticasRetry {
    pub tentativas_totais: u64,
    pub sucessos_primeiro_try: u64,
    pub sucessos_retry: u64,
    pub falhas_definitivas: u64,
    pub tempo_medio_resolucao_ms: u64,
}

/// `v` plus one, held at the largest `u64`.
pub open spec fn incrementado(v: u64) -> u64 {
    if v == u64::MAX {
        v
    } else {
        (v + 1) as u64
    }
}

fn incrementar(v: u64) -> (r: u64)
    ensures
        r == incrementado(v),
{
    if v == u64::MAX {
        v
    } else {
        v + 1
    }
}

impl EstatisticasRetry {
    pub fn new() -> (r: EstatisticasRetry)
        ensures
            r == (EstatisticasRetry {
                tentativas_totais: 0,
                sucessos_primeiro_try: 0,
                sucessos_retry: 0,
                falhas_definitivas: 0,
                tempo_medio_resolucao_ms: 0,
            }),
    {
        EstatisticasRetry {
            tentativas_totais: 0,
            sucessos_primeiro_try: 0,
            sucessos_retry: 0,
            falhas_definitivas: 0,
            tempo_medio_resolucao_ms: 0,
        }
    }

    /// Counts a send that went through at its first attempt.
    pub fn registrar_sucesso_primeiro_try(&mut self)
        ensures
            *final(self) == (EstatisticasRetry {
                tentativas_totais: incrementado(old(self).tentativas_totais),
                sucessos_primeiro_try: incrementado(old(self).sucessos_primeiro_try),
                ..*old(self)
            }),
    {
        self.tentativas_totais = incrementar(self.tentativas_totais);
        self.sucessos_primeiro_try = incrementar(self.sucessos_primeiro_try);
    }

    /// Counts the outcome of a retry.
    pub fn registrar_decisao(&mut self, decisao: DecisaoRetry)
        ensures
            *final(self) == match decisao {
                DecisaoRetry::Entregue => EstatisticasRetry {
                    sucessos_retry: incrementado(old(self).sucessos_retry),
                    ..*old(self)
                },
                DecisaoRetry::FalhaDefinitiva => EstatisticasRetry {
                    falhas_definitivas: incrementado(old(self).falhas_definitivas),
                    ..*old(self)
                },
                DecisaoRetry::Reagendar(_) => *old(self),
            },
    {
        match decisao {
            DecisaoRetry::Entregue => {
                self.sucessos_retry = incrementar(self.sucessos_retry);
            },
            DecisaoRetry::FalhaDefinitiva => {
                self.falhas_definitivas = incrementar(self.falhas_definitivas);
            },
            DecisaoRetry::Reagendar(_) => {},
        }
    }
}

} // verus!
