//! The ledger of distributions: the life of a record and the filter over
//! records.

use vstd::prelude::*;
use crate::erro::Erro;
use crate::tempo::Instante;

verus! {

#[derive(Clone, Copy, Debug, PartialEq, Eq, Structural)]
pub enum StatusRegistro {
    Pendente,
    Confirmado,
    Falhou,
    Revertido,
}

/// The status after a reversal: only a confirmed record can be reverted.
pub open spec fn apos_reverter(status: StatusRegistro) -> Result<StatusRegistro, Erro> {
    if status == StatusRegistro::Confirmado {
        Ok(StatusRegistro::Revertido)
    } else {
        Err(Erro::StatusInvalido)
    }
}

impl StatusRegistro {
    /// The status of a record once it is confirmed.
    pub fn confirmar(self) -> (r: StatusRegistro)
        ensures
            r == StatusRegistro::Confirmado,
    {
        StatusRegistro::Confirmado
    }

    /// The status of a record once it has failed.
    pub fn falhar(self) -> (r: StatusRegistro)
        ensures
            r == StatusRegistro::Falhou,
    {
        StatusRegistro::Falhou
    }

    /// The status of a record once it is reverted; fails where the record
    /// is not confirmed.
    pub fn reverter(self) -> (r: Result<StatusRegistro, Erro>)
        ensures
            r == apos_reverter(self),
    {
        match self {
            StatusRegistro::Confirmado => Ok(StatusRegistro::Revertido),
            _ => Err(Erro::StatusInvalido),
        }
    }
}

/// What a filter reads of a record.
pub struct DadosRegistro {
    pub transacao_id: String,
    pub timestamp: Instante,
    pub status: StatusRegistro,
    /// The nodes of the distribution: the processor, then the validators.
    pub nos: Vec<String>,
}

pub struct FiltroLedger {
    pub transacao_id: Option<String>,
    pub status: Option<StatusRegistro>,
    pub data_inicio: Option<Instante>,
    pub data_fim: Option<Instante>,
    pub no_id: Option<String>,
}

/// Whether node `no_id` is among the nodes of the record.
pub open spec fn tem_no(nos: Seq<String>, no_id: Seq<char>) -> bool {
    exists|i: int| 0 <= i < nos.len() && (#[trigger] nos[i])@ == no_id
}

/// Whether a record passes a filter: every criterion that the filter
/// names must hold — the transaction, the status, a timestamp not before
/// the start and not after the end, and a node of the distribution.
pub open spec fn passa_no_filtro(r: DadosRegistro, f: FiltroLedger) -> bool {
    &&& f.transacao_id matches Some(t) ==> r.transacao_id@ == t@
    &&& f.status matches Some(s) ==> r.status == s
    &&& f.data_inicio matches Some(d) ==> !r.timestamp.antes_de(d)
    &&& f.data_fim matches Some(d) ==> !d.antes_de(r.timestamp)
    &&& f.no_id matches Some(n) ==> tem_no(r.nos@, n@)
}

/// Whether `registro` passes `filtro`.
pub fn aplicar_filtro(registro: &DadosRegistro, filtro: &FiltroLedger) -> (r: bool)
    ensures
        r == passa_no_filtro(*registro, *filtro),
{
    match &filtro.transacao_id {
        Some(t) => {
            if registro.transacao_id != *t {
                return false;
            }
        },
        None => {},
    }
    match filtro.status {
        Some(s) => {
            if registro.status != s {
                return false;
            }
        },
        None => {},
    }
    match filtro.data_inicio {
        Some(d) => {
            if registro.timestamp.anterior_a(&d) {
                return false;
            }
        },
        None => {},
    }
    match filtro.data_fim {
        Some(d) => {
            if d.anterior_a(&registro.timestamp) {
                return false;
            }
        },
        None => {},
    }
    match &filtro.no_id {
        Some(n) => {
            let mut achou = false;
            let mut i: usize = 0;
            while i < registro.nos.len()
                invariant
                    i <= registro.nos@.len(),
                    achou == exists|k: int| 0 <= k < i && (#[trigger] registro.nos@[k])@ == n@,
                decreases registro.nos@.len() - i,
            {
                if registro.nos[i] == *n {
                    achou = true;
                }
                i += 1;
            }
            if !achou {
                return false;
            }
        },
        None => {},
    }
    true
}

/// The largest number of days that a span of time can hold.
pub const DIAS_MAXIMOS: i64 = 106_751_991_167;

/// Seconds in a day.
pub const SEGUNDOS_POR_DIA: i64 = 86_400;

/// Whether a record stamped `timestamp` is older than `dias` days at
/// `agora`.
pub fn registro_antigo(timestamp: Instante, agora: Instante, dias: i64) -> (r: bool)
    requires
        -DIAS_MAXIMOS <= dias <= DIAS_MAXIMOS,
    ensures
        r == timestamp.antes_de(agora.deslocado(-(dias * SEGUNDOS_POR_DIA))),
{
    let limite = agora.menos_segundos(dias * SEGUNDOS_POR_DIA);
    timestamp.anterior_a(&limite)
}

} // verus!
