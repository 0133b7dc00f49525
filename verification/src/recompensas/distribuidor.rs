//! The accounts of the nodes and the crediting of a distribution.

use vstd::prelude::*;
use crate::consenso::tipos::{bytes_de_texto, bytes_do_texto, lema_bytes_de_texto_injetiva};
use crate::erro::Erro;
use crate::mapa::{lugar_de, MapaOrdenado};

verus! {

/// The default minimum fee of a distribution.
pub const TAXA_MINIMA_PADRAO: u64 = 1000;

pub struct ContaNo {
    pub no_id: String,
    pub saldo: u64,
    pub total_recebido: u64,
    pub numero_transacoes: u64,
}

/// What an account holds apart from its id.
#[derive(Clone, Copy, Debug, PartialEq, Eq, Structural)]
pub struct Saldos {
    pub saldo: u64,
    pub total_recebido: u64,
    pub numero_transacoes: u64,
}

/// The share of a node in a distribution.
pub struct RecompensaNo {
    pub no_id: String,
    pub valor: u64,
}

pub struct DistribuicaoRecompensa {
    pub processador: RecompensaNo,
    pub validadores: Vec<RecompensaNo>,
    pub total: u64,
}

#[derive(Clone, Copy, Debug, PartialEq, Eq, Structural)]
pub struct EstatisticasDistribuicao {
    pub total_distribuido: u64,
    pub numero_distribuicoes: u64,
    pub maior_distribuicao: u64,
    pub menor_distribuicao: u64,
}

/// The shares of the validators, in order.
pub open spec fn valores_dos_validadores(d: DistribuicaoRecompensa) -> Seq<u64> {
    Seq::new(d.validadores@.len(), |i: int| d.validadores@[i].valor)
}

/// The sum of the first `n` values.
pub open spec fn soma(valores: Seq<u64>, n: int) -> int
    decreases n,
{
    if n <= 0 {
        0
    } else {
        soma(valores, n - 1) + valores[n - 1]
    }
}

/// A distribution is accepted where its total is not below the minimum fee
/// and equals the share of the processor plus the shares of the
/// validators.
pub open spec fn distribuicao_valida(d: DistribuicaoRecompensa, taxa_minima: u64) -> bool {
    &&& d.total >= taxa_minima
    &&& d.processador.valor + soma(
        valores_dos_validadores(d),
        valores_dos_validadores(d).len() as int,
    ) == d.total
}

/// `a + b`, held at the largest `u64`.
pub open spec fn mais(a: u64, b: u64) -> u64 {
    if a + b > u64::MAX {
        u64::MAX
    } else {
        (a + b) as u64
    }
}

/// An account after a credit of `valor`.
pub open spec fn creditada(s: Saldos, valor: u64) -> Saldos {
    Saldos {
        saldo: mais(s.saldo, valor),
        total_recebido: mais(s.total_recebido, valor),
        numero_transacoes: mais(s.numero_transacoes, 1),
    }
}

/// An account that was never credited.
pub open spec fn conta_nova() -> Saldos {
    Saldos { saldo: 0, total_recebido: 0, numero_transacoes: 0 }
}

/// The accounts after a credit of `valor` to node `no_id`.
pub open spec fn com_credito(contas: Map<Seq<char>, Saldos>, no_id: Seq<char>, valor: u64) -> Map<
    Seq<char>,
    Saldos,
> {
    contas.insert(
        no_id,
        creditada(
            if contas.dom().contains(no_id) {
                contas[no_id]
            } else {
                conta_nova()
            },
            valor,
        ),
    )
}

/// The accounts after the first `n` validators were credited their shares:
/// validator `i` gets share `i`, and validators beyond the shares get
/// nothing.
pub open spec fn com_creditos(
    contas: Map<Seq<char>, Saldos>,
    validadores: Seq<Seq<char>>,
    valores: Seq<u64>,
    n: int,
) -> Map<Seq<char>, Saldos>
    decreases n,
{
    if n <= 0 {
        contas
    } else {
        let antes = com_creditos(contas, validadores, valores, n - 1);
        if n - 1 < valores.len() {
            com_credito(antes, validadores[n - 1], valores[n - 1])
        } else {
            antes
        }
    }
}

/// The statistics after a distribution of `valor`.
pub open spec fn estatisticas_com(e: EstatisticasDistribuicao, valor: u64) -> EstatisticasDistribuicao {
    EstatisticasDistribuicao {
        total_distribuido: mais(e.total_distribuido, valor),
        numero_distribuicoes: mais(e.numero_distribuicoes, 1),
        maior_distribuicao: if valor > e.maior_distribuicao {
            valor
        } else {
            e.maior_distribuicao
        },
        menor_distribuicao: if valor < e.menor_distribuicao {
            valor
        } else {
            e.menor_distribuicao
        },
    }
}

/// The ids of a list of nodes.
pub open spec fn textos_de(ids: Seq<String>) -> Seq<Seq<char>> {
    Seq::new(ids.len(), |i: int| ids[i]@)
}

pub struct DistribuidorRecompensas {
    contas: MapaOrdenado<ContaNo>,
    estatisticas: EstatisticasDistribuicao,
    taxa_minima: u64,
}

impl DistribuidorRecompensas {
    /// Whether node `no_id` has an account.
    pub closed spec fn tem_conta(&self, no_id: Seq<char>) -> bool {
        self.contas.contem(bytes_de_texto(no_id))
    }

    /// The account of node `no_id`.
    pub closed spec fn conta_de(&self, no_id: Seq<char>) -> Saldos {
        let c = self.contas.valor_de(bytes_de_texto(no_id));
        Saldos {
            saldo: c.saldo,
            total_recebido: c.total_recebido,
            numero_transacoes: c.numero_transacoes,
        }
    }

    /// The accounts by node id.
    pub open spec fn contas(&self) -> Map<Seq<char>, Saldos> {
        Map::new(|id: Seq<char>| self.tem_conta(id), |id: Seq<char>| self.conta_de(id))
    }

    /// How many nodes have an account.
    pub closed spec fn total_contas(&self) -> nat {
        self.contas.chaves().len()
    }

    pub closed spec fn estatisticas(&self) -> EstatisticasDistribuicao {
        self.estatisticas
    }

    pub closed spec fn taxa_minima(&self) -> u64 {
        self.taxa_minima
    }

    pub closed spec fn bem_formado(&self) -> bool {
        &&& self.contas.bem_formado()
        &&& forall|i: int|
            0 <= i < self.contas.chaves().len() ==> #[trigger] self.contas.chaves()[i]
                == bytes_de_texto(self.contas.valores()[i].no_id@)
    }

    /// A distributor without accounts, with a minimum fee of 1000.
    pub fn new() -> (r: DistribuidorRecompensas)
        ensures
            r.bem_formado(),
            r.taxa_minima() == TAXA_MINIMA_PADRAO,
            r.contas() == Map::<Seq<char>, Saldos>::empty(),
            r.estatisticas() == (EstatisticasDistribuicao {
                total_distribuido: 0,
                numero_distribuicoes: 0,
                maior_distribuicao: 0,
                menor_distribuicao: u64::MAX,
            }),
    {
        let r = DistribuidorRecompensas {
            contas: MapaOrdenado::new(),
            estatisticas: EstatisticasDistribuicao {
                total_distribuido: 0,
                numero_distribuicoes: 0,
                maior_distribuicao: 0,
                menor_distribuicao: u64::MAX,
            },
            taxa_minima: TAXA_MINIMA_PADRAO,
        };
        assert(r.contas() =~= Map::<Seq<char>, Saldos>::empty());
        r
    }

    /// Whether `distribuicao` is accepted: its total is not below the
    /// minimum fee and is the sum of its parts.
    pub fn validar_distribuicao(&self, distribuicao: &DistribuicaoRecompensa) -> (r: bool)
        ensures
            r == distribuicao_valida(*distribuicao, self.taxa_minima()),
    {
        if distribuicao.total < self.taxa_minima {
            return false;
        }
        let ghost valores = valores_dos_validadores(*distribuicao);
        let mut acumulado: u128 = distribuicao.processador.valor as u128;
        let mut i: usize = 0;
        while i < distribuicao.validadores.len()
            invariant
                i <= distribuicao.validadores@.len(),
                valores == valores_dos_validadores(*distribuicao),
                acumulado == distribuicao.processador.valor + soma(valores, i as int),
                acumulado <= (i + 1) * 0xFFFF_FFFF_FFFF_FFFF,
            decreases distribuicao.validadores@.len() - i,
        {
            assert(valores[i as int] == distribuicao.validadores@[i as int].valor);
            acumulado = acumulado + distribuicao.validadores[i].valor as u128;
            i += 1;
        }
        acumulado == distribuicao.total as u128
    }

    /// Credits `valor` to node `no_id`, opening its account where it has
    /// none.
    pub fn creditar_conta(&mut self, no_id: &str, valor: u64)
        requires
            old(self).bem_formado(),
        ensures
            final(self).bem_formado(),
            final(self).taxa_minima() == old(self).taxa_minima(),
            final(self).estatisticas() == old(self).estatisticas(),
            final(self).contas() == com_credito(old(self).contas(), no_id@, valor),
    {
        let chave = bytes_do_texto(no_id);
        let (saldo, total_recebido, numero_transacoes) = match self.contas.obter(chave.as_slice()) {
            Some(c) => (c.saldo, c.total_recebido, c.numero_transacoes),
            None => (0, 0, 0),
        };
        let conta = ContaNo {
            no_id: no_id.to_owned(),
            saldo: saldo.saturating_add(valor),
            total_recebido: total_recebido.saturating_add(valor),
            numero_transacoes: numero_transacoes.saturating_add(1),
        };
        let ghost antes = self.contas;
        self.contas.inserir(chave, conta);
        proof {
            if antes.contem(chave@) {
                let p = lugar_de(antes.chaves(), chave@);
                assert(antes.chaves()[p] == chave@);
            }
            assert forall|id: Seq<char>| #[trigger] self.tem_conta(id) == (id == no_id@ || old(self).tem_conta(id)) by {
                if bytes_de_texto(id) == chave@ {
                    lema_bytes_de_texto_injetiva(id, no_id@);
                }
            }
            assert forall|id: Seq<char>| id != no_id@ && old(self).tem_conta(id) implies
                #[trigger] self.conta_de(id) == old(self).conta_de(id) by {
                if bytes_de_texto(id) == chave@ {
                    lema_bytes_de_texto_injetiva(id, no_id@);
                }
            }
            assert(self.contas() =~= com_credito(old(self).contas(), no_id@, valor));
        }
    }

    /// Credits a distribution: the share of the processor to
    /// `processador_id`, and share `i` of the validators to validator `i`.
    /// A distribution that is not accepted is refused, and nothing changes.
    pub fn distribuir(
        &mut self,
        processador_id: &str,
        validadores: &[String],
        distribuicao: &DistribuicaoRecompensa,
    ) -> (r: Result<(), Erro>)
        requires
            old(self).bem_formado(),
        ensures
            final(self).bem_formado(),
            final(self).taxa_minima() == old(self).taxa_minima(),
            r is Ok <==> distribuicao_valida(*distribuicao, old(self).taxa_minima()),
            r matches Err(e) ==> e == Erro::DistribuicaoInvalida && final(self).contas() == old(self).contas() && final(self).estatisticas() == old(self).estatisticas(),
            r is Ok ==> {
                &&& final(self).contas() == com_creditos(
                    com_credito(old(self).contas(), processador_id@, distribuicao.processador.valor),
                    textos_de(validadores@),
                    valores_dos_validadores(*distribuicao),
                    validadores@.len() as int,
                )
                &&& final(self).estatisticas() == estatisticas_com(
                    old(self).estatisticas(),
                    distribuicao.total,
                )
            },
    {
        if !self.validar_distribuicao(distribuicao) {
            return Err(Erro::DistribuicaoInvalida);
        }
        self.creditar_conta(processador_id, distribuicao.processador.valor);
        let ghost inicio = self.contas();
        let ghost ids = textos_de(validadores@);
        let ghost valores = valores_dos_validadores(*distribuicao);
        let mut i: usize = 0;
        while i < validadores.len()
            invariant
                self.bem_formado(),
                i <= validadores@.len(),
                ids == textos_de(validadores@),
                valores == valores_dos_validadores(*distribuicao),
                self.taxa_minima() == old(self).taxa_minima(),
                self.estatisticas() == old(self).estatisticas(),
                self.contas() == com_creditos(inicio, ids, valores, i as int),
            decreases validadores@.len() - i,
        {
            if i < distribuicao.validadores.len() {
                assert(valores[i as int] == distribuicao.validadores@[i as int].valor);
                self.creditar_conta(validadores[i].as_str(), distribuicao.validadores[i].valor);
            }
            i += 1;
        }
        self.atualizar_estatisticas(distribuicao.total);
        Ok(())
    }

    /// Counts a distribution of `valor_distribuido`.
    fn atualizar_estatisticas(&mut self, valor_distribuido: u64)
        ensures
            final(self).bem_formado() == old(self).bem_formado(),
            final(self).taxa_minima() == old(self).taxa_minima(),
            final(self).contas() == old(self).contas(),
            final(self).estatisticas() == estatisticas_com(
                old(self).estatisticas(),
                valor_distribuido,
            ),
    {
        let e = self.estatisticas;
        self.estatisticas = EstatisticasDistribuicao {
            total_distribuido: e.total_distribuido.saturating_add(valor_distribuido),
            numero_distribuicoes: e.numero_distribuicoes.saturating_add(1),
            maior_distribuicao: if valor_distribuido > e.maior_distribuicao {
                valor_distribuido
            } else {
                e.maior_distribuicao
            },
            menor_distribuicao: if valor_distribuido < e.menor_distribuicao {
                valor_distribuido
            } else {
                e.menor_distribuicao
            },
        };
        assert(self.contas() =~= old(self).contas());
    }

    /// The balance of node `no_id`.
    pub fn obter_saldo(&self, no_id: &str) -> (r: Option<u64>)
        requires
            self.bem_formado(),
        ensures
            r is Some <==> self.tem_conta(no_id@),
            r matches Some(s) ==> s == self.conta_de(no_id@).saldo,
    {
        match self.contas.obter(no_id.as_bytes()) {
            Some(c) => Some(c.saldo),
            None => None,
        }
    }

    /// The account of node `no_id`.
    pub fn obter_conta(&self, no_id: &str) -> (r: Option<ContaNo>)
        requires
            self.bem_formado(),
        ensures
            r is Some <==> self.tem_conta(no_id@),
            r matches Some(c) ==> c.no_id@ == no_id@ && c.saldo == self.conta_de(no_id@).saldo
                && c.total_recebido == self.conta_de(no_id@).total_recebido && c.numero_transacoes
                == self.conta_de(no_id@).numero_transacoes,
    {
        match self.contas.obter(no_id.as_bytes()) {
            Some(c) => Some(
                ContaNo {
                    no_id: no_id.to_owned(),
                    saldo: c.saldo,
                    total_recebido: c.total_recebido,
                    numero_transacoes: c.numero_transacoes,
                },
            ),
            None => None,
        }
    }

    /// Every account, in order of its first credit.
    pub fn listar_contas(&self) -> (r: Vec<ContaNo>)
        requires
            self.bem_formado(),
        ensures
            r@.len() == self.total_contas(),
            forall|i: int|
                0 <= i < r@.len() ==> {
                    &&& self.tem_conta((#[trigger] r@[i]).no_id@)
                    &&& self.conta_de(r@[i].no_id@) == (Saldos {
                        saldo: r@[i].saldo,
                        total_recebido: r@[i].total_recebido,
                        numero_transacoes: r@[i].numero_transacoes,
                    })
                },
            forall|i: int, j: int| 0 <= i < j < r@.len() ==> r@[i].no_id@ != r@[j].no_id@,
    {
        let mut r: Vec<ContaNo> = Vec::new();
        let mut i: usize = 0;
        while i < self.contas.len()
            invariant
                self.bem_formado(),
                i <= self.contas.chaves().len(),
                r@.len() == i,
                forall|k: int|
                    0 <= k < i ==> {
                        &&& (#[trigger] r@[k]).no_id@ == self.contas.valores()[k].no_id@
                        &&& r@[k].saldo == self.contas.valores()[k].saldo
                        &&& r@[k].total_recebido == self.contas.valores()[k].total_recebido
                        &&& r@[k].numero_transacoes == self.contas.valores()[k].numero_transacoes
                    },
            decreases self.contas.chaves().len() - i,
        {
            let c = self.contas.valor_em(i);
            r.push(
                ContaNo {
                    no_id: c.no_id.clone(),
                    saldo: c.saldo,
                    total_recebido: c.total_recebido,
                    numero_transacoes: c.numero_transacoes,
                },
            );
            i += 1;
        }
        proof {
            assert forall|k: int| 0 <= k < r@.len() implies {
                &&& self.tem_conta((#[trigger] r@[k]).no_id@)
                &&& self.conta_de(r@[k].no_id@) == (Saldos {
                    saldo: r@[k].saldo,
                    total_recebido: r@[k].total_recebido,
                    numero_transacoes: r@[k].numero_transacoes,
                })
            } by {
                assert(self.contas.chaves()[k] == bytes_de_texto(self.contas.valores()[k].no_id@));
                crate::mapa::lema_lugar_unico(self.contas.chaves(), k);
            }
            assert forall|a: int, b: int| 0 <= a < b < r@.len() implies r@[a].no_id@
                != r@[b].no_id@ by {
                assert(self.contas.chaves()[a] == bytes_de_texto(self.contas.valores()[a].no_id@));
                assert(self.contas.chaves()[b] == bytes_de_texto(self.contas.valores()[b].no_id@));
                assert(self.contas.chaves()[a] != self.contas.chaves()[b]);
            }
        }
        r
    }

    /// Takes `valor` out of the account of node `no_id`. Fails where the
    /// node has no account, and where its balance is below `valor`; nothing
    /// changes then.
    pub fn sacar(&mut self, no_id: &str, valor: u64) -> (r: Result<(), Erro>)
        requires
            old(self).bem_formado(),
        ensures
            final(self).bem_formado(),
            final(self).taxa_minima() == old(self).taxa_minima(),
            final(self).estatisticas() == old(self).estatisticas(),
            match r {
                Ok(_) => {
                    &&& old(self).tem_conta(no_id@)
                    &&& old(self).conta_de(no_id@).saldo >= valor
                    &&& final(self).contas() == old(self).contas().insert(
                        no_id@,
                        Saldos {
                            saldo: (old(self).conta_de(no_id@).saldo - valor) as u64,
                            ..old(self).conta_de(no_id@)
                        },
                    )
                },
                Err(e) => {
                    &&& final(self).contas() == old(self).contas()
                    &&& e == if old(self).tem_conta(no_id@) {
                        Erro::SaldoInsuficiente
                    } else {
                        Erro::NaoEncontrado
                    }
                    &&& old(self).tem_conta(no_id@) ==> old(self).conta_de(no_id@).saldo < valor
                },
            },
    {
        let chave = bytes_do_texto(no_id);
        let (saldo, total_recebido, numero_transacoes) = match self.contas.obter(chave.as_slice()) {
            Some(c) => (c.saldo, c.total_recebido, c.numero_transacoes),
            None => {
                return Err(Erro::NaoEncontrado);
            },
        };
        if saldo < valor {
            return Err(Erro::SaldoInsuficiente);
        }
        let conta = ContaNo {
            no_id: no_id.to_owned(),
            saldo: saldo - valor,
            total_recebido,
            numero_transacoes,
        };
        let ghost antes = self.contas;
        self.contas.inserir(chave, conta);
        proof {
            let p = lugar_de(antes.chaves(), chave@);
            assert(antes.chaves()[p] == chave@);
            assert forall|id: Seq<char>| #[trigger] self.tem_conta(id) == old(self).tem_conta(
                id,
            ) by {
                if bytes_de_texto(id) == chave@ {
                    lema_bytes_de_texto_injetiva(id, no_id@);
                }
            }
            assert forall|id: Seq<char>| id != no_id@ && old(self).tem_conta(id) implies
                #[trigger] self.conta_de(id) == old(self).conta_de(id) by {
                if bytes_de_texto(id) == chave@ {
                    lema_bytes_de_texto_injetiva(id, no_id@);
                }
            }
            assert(self.contas() =~= old(self).contas().insert(
                no_id@,
                Saldos {
                    saldo: (old(self).conta_de(no_id@).saldo - valor) as u64,
                    ..old(self).conta_de(no_id@)
                },
            ));
        }
        Ok(())
    }

    pub fn obter_estatisticas(&self) -> (r: EstatisticasDistribuicao)
        ensures
            r == self.estatisticas(),
    {
        self.estatisticas
    }

    pub fn definir_taxa_minima(&mut self, nova_taxa: u64)
        ensures
            final(self).taxa_minima() == nova_taxa,
            final(self).bem_formado() == old(self).bem_formado(),
            final(self).contas() == old(self).contas(),
            final(self).estatisticas() == old(self).estatisticas(),
    {
        self.taxa_minima = nova_taxa;
        assert(self.contas() =~= old(self).contas());
    }
}

} // verus!
