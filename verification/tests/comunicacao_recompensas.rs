use nimbos::comunicacao::broadcast::{No, SistemaBroadcast};
use nimbos::comunicacao::protocolo::{gerar_id_mensagem, Mensagem, TipoMensagem};
use nimbos::comunicacao::rede::{
    adicionar_seed, ordem_por_latencia, saude_rede, ConfiguracaoRede, SaudeRede, StatusNo,
};
use nimbos::comunicacao::retry::{
    decidir, espera_esgotada, limitar_delay, pronto_para_retry, DecisaoRetry, EstatisticasRetry,
};
use nimbos::consenso::tipos::{calcular_hash, concatenar};
use nimbos::erro::Erro;
use nimbos::mapa::MapaOrdenado;
use nimbos::recompensas::distribuidor::{
    DistribuicaoRecompensa, DistribuidorRecompensas, RecompensaNo,
};
use nimbos::recompensas::ledger::{
    aplicar_filtro, registro_antigo, DadosRegistro, FiltroLedger, StatusRegistro,
};
use nimbos::tempo::Instante;

fn agora() -> Instante {
    Instante::new(1_700_000_000, 0)
}

fn par(id: &str, ativo: bool) -> No {
    No {
        id: id.to_string(),
        endereco: "10.0.0.1".to_string(),
        porta: 8080,
        ativo,
        ultima_resposta: agora(),
    }
}

#[test]
fn mensagem_assinada_pelo_remetente() {
    let m = Mensagem::nova(
        "msg_1_2".to_string(),
        TipoMensagem::Commitment,
        "no-1".to_string(),
        b"carga".to_vec(),
        agora(),
    );
    assert_eq!(m.id, "msg_1_2");
    assert_eq!(m.tipo, TipoMensagem::Commitment);
    assert_eq!(m.timestamp, agora());
    assert_eq!(m.assinatura, calcular_hash(&concatenar(b"no-1", b"carga")));
    assert!(m.verificar_assinatura());
}

#[test]
fn mensagem_adulterada_e_descartada() {
    let nova = || {
        Mensagem::nova(
            "id".to_string(),
            TipoMensagem::Transacao,
            "no-1".to_string(),
            b"carga".to_vec(),
            agora(),
        )
    };
    let mut m = nova();
    m.dados[0] ^= 1;
    assert!(!m.verificar_assinatura());
    let mut m = nova();
    m.remetente = "no-2".to_string();
    assert!(!m.verificar_assinatura());
    let mut m = nova();
    m.assinatura = vec![];
    assert!(!m.verificar_assinatura());
}

#[test]
fn id_de_mensagem_tem_tempo_e_sorteio() {
    assert_eq!(gerar_id_mensagem(1_700_000_000_000_000_000, 42), "msg_1700000000000000000_42");
    assert_eq!(gerar_id_mensagem(0, 0), "msg_0_0");
    assert_eq!(gerar_id_mensagem(u64::MAX, u32::MAX), "msg_18446744073709551615_4294967295");
}

#[test]
fn broadcast_envia_so_aos_ativos() {
    let s = SistemaBroadcast::new();
    let nos = vec![par("a", true), par("b", false), par("c", true)];
    let d = s.destinos(&nos);
    let ids: Vec<&str> = d.iter().map(|n| n.id.as_str()).collect();
    assert_eq!(ids, vec!["a", "c"]);
    assert!(s.destinos(&[]).is_empty());
}

#[test]
fn fanout_parte_a_lista_em_lotes() {
    let s = SistemaBroadcast::new();
    let nos: Vec<No> = ["a", "b", "c", "d", "e"].iter().map(|i| par(i, true)).collect();
    let ids = |l: Vec<No>| l.into_iter().map(|n| n.id).collect::<Vec<String>>();
    assert_eq!(ids(s.lote_de_fanout(&nos, 2, 0)), vec!["a", "b"]);
    assert_eq!(ids(s.lote_de_fanout(&nos, 2, 1)), vec!["c", "d"]);
    assert_eq!(ids(s.lote_de_fanout(&nos, 2, 2)), vec!["e"]);
    assert_eq!(ids(s.lote_de_fanout(&nos, 5, 0)).len(), 5);
    assert!(s.lote_de_fanout(&nos, 5, 1).is_empty());
}

#[test]
fn contadores_do_broadcast() {
    let mut s = SistemaBroadcast::new();
    s.registrar_envio(5, 3);
    s.registrar_envio(2, 2);
    s.registrar_tempo_medio(17);
    let e = s.obter_estatisticas();
    assert_eq!(e.mensagens_enviadas, 7);
    assert_eq!(e.mensagens_entregues, 5);
    assert_eq!(e.mensagens_falharam, 2);
    assert_eq!(e.tempo_medio_entrega_ms, 17);
    s.configurar_timeout(5);
    s.configurar_max_tentativas(9);
    assert_eq!(s.obter_estatisticas(), e);
}

#[test]
fn decisao_apos_cada_tentativa() {
    assert_eq!(decidir(1, 3, true), DecisaoRetry::Entregue);
    assert_eq!(decidir(1, 3, false), DecisaoRetry::Reagendar(2));
    assert_eq!(decidir(2, 3, false), DecisaoRetry::FalhaDefinitiva);
    assert_eq!(decidir(0, 0, false), DecisaoRetry::FalhaDefinitiva);
    assert_eq!(decidir(u32::MAX, u32::MAX, false), DecisaoRetry::FalhaDefinitiva);
    assert_eq!(decidir(5, 3, true), DecisaoRetry::Entregue);
}

#[test]
fn esperas_do_retry() {
    assert_eq!(limitar_delay(100, 30_000), 100);
    assert_eq!(limitar_delay(30_001, 30_000), 30_000);
    assert!(pronto_para_retry(100, 100));
    assert!(!pronto_para_retry(99, 100));
    assert!(!espera_esgotada(1000, 300_999));
    assert!(espera_esgotada(1000, 301_000));
    assert!(!espera_esgotada(u64::MAX, u64::MAX));
}

#[test]
fn estatisticas_do_retry() {
    let mut e = EstatisticasRetry::new();
    e.registrar_sucesso_primeiro_try();
    e.registrar_decisao(DecisaoRetry::Entregue);
    e.registrar_decisao(DecisaoRetry::FalhaDefinitiva);
    e.registrar_decisao(DecisaoRetry::Reagendar(2));
    assert_eq!(e.tentativas_totais, 1);
    assert_eq!(e.sucessos_primeiro_try, 1);
    assert_eq!(e.sucessos_retry, 1);
    assert_eq!(e.falhas_definitivas, 1);
}

#[test]
fn no_ativo_dentro_do_timeout_de_heartbeat() {
    let c = ConfiguracaoRede::default();
    assert_eq!(c.timeout_heartbeat_ms, 30_000);
    assert_eq!(c.intervalo_descoberta_ms, 60_000);
    let s = StatusNo::novo(par("a", true), 1000);
    assert!(s.esta_ativo(1000, c.timeout_heartbeat_ms));
    assert!(s.esta_ativo(30_999, c.timeout_heartbeat_ms));
    assert!(!s.esta_ativo(31_000, c.timeout_heartbeat_ms));
    // A clock that reads earlier than the activity.
    assert!(s.esta_ativo(0, c.timeout_heartbeat_ms));
    let s = StatusNo::novo(par("a", false), 1000);
    assert!(!s.esta_ativo(1000, c.timeout_heartbeat_ms));
}

#[test]
fn heartbeat_e_limpeza() {
    let mut s = StatusNo::novo(par("a", true), 0);
    assert!(!s.precisa_heartbeat(15_000, 30_000));
    assert!(s.precisa_heartbeat(15_001, 30_000));
    assert!(!s.deve_ser_removido(10_000_000));
    s.marcar_no_inativo();
    assert!(!s.no.ativo);
    assert_eq!(s.tentativas_conexao, 1);
    assert_eq!(s.historico_disponibilidade, vec![false]);
    assert!(!s.deve_ser_removido(3_600_000));
    assert!(s.deve_ser_removido(3_600_001));
    s.registrar_heartbeat(3_600_001);
    assert_eq!(s.tentativas_conexao, 0);
    assert!(!s.deve_ser_removido(3_600_002));
    for _ in 0..11 {
        s.marcar_no_inativo();
    }
    assert_eq!(s.tentativas_conexao, 11);
    assert!(s.deve_ser_removido(3_600_002));
    for _ in 0..200 {
        s.marcar_no_inativo();
    }
    assert_eq!(s.historico_disponibilidade.len(), 100);
}

#[test]
fn saude_da_rede_pela_fracao_de_ativos() {
    assert_eq!(saude_rede(0, 0), SaudeRede::Critica);
    assert_eq!(saude_rede(9, 10), SaudeRede::Excelente);
    assert_eq!(saude_rede(89, 100), SaudeRede::Boa);
    assert_eq!(saude_rede(7, 10), SaudeRede::Boa);
    assert_eq!(saude_rede(69, 100), SaudeRede::Regular);
    assert_eq!(saude_rede(5, 10), SaudeRede::Regular);
    assert_eq!(saude_rede(49, 100), SaudeRede::Critica);
}

#[test]
fn seed_entra_uma_vez() {
    let mut seeds = Vec::new();
    adicionar_seed(&mut seeds, "a".to_string());
    adicionar_seed(&mut seeds, "b".to_string());
    adicionar_seed(&mut seeds, "a".to_string());
    assert_eq!(seeds, vec!["a".to_string(), "b".to_string()]);
}

fn distribuicao(processador: u64, validadores: &[u64], total: u64) -> DistribuicaoRecompensa {
    DistribuicaoRecompensa {
        processador: RecompensaNo { no_id: "processador".to_string(), valor: processador },
        validadores: validadores
            .iter()
            .enumerate()
            .map(|(i, v)| RecompensaNo { no_id: format!("validador_{}", i), valor: *v })
            .collect(),
        total,
    }
}

#[test]
fn distribuicao_credita_processador_e_validadores() {
    let mut d = DistribuidorRecompensas::new();
    let v = vec!["v1".to_string(), "v2".to_string(), "v3".to_string()];
    assert_eq!(d.distribuir("p", &v, &distribuicao(800, &[100, 100], 1000)), Ok(()));
    assert_eq!(d.obter_saldo("p"), Some(800));
    assert_eq!(d.obter_saldo("v1"), Some(100));
    assert_eq!(d.obter_saldo("v2"), Some(100));
    // A validator beyond the shares gets nothing.
    assert_eq!(d.obter_saldo("v3"), None);
    assert_eq!(d.distribuir("v1", &v[..1], &distribuicao(1500, &[500], 2000)), Ok(()));
    let c = d.obter_conta("v1").unwrap();
    assert_eq!(c.no_id, "v1");
    assert_eq!(c.saldo, 2100);
    assert_eq!(c.total_recebido, 2100);
    assert_eq!(c.numero_transacoes, 3);
    let contas = d.listar_contas();
    let ids: Vec<&str> = contas.iter().map(|c| c.no_id.as_str()).collect();
    assert_eq!(ids, vec!["p", "v1", "v2"]);
    assert_eq!(contas[0].saldo, 800);
    let e = d.obter_estatisticas();
    assert_eq!(e.total_distribuido, 3000);
    assert_eq!(e.numero_distribuicoes, 2);
    assert_eq!(e.maior_distribuicao, 2000);
    assert_eq!(e.menor_distribuicao, 1000);
}

#[test]
fn distribuicao_invalida_e_recusada() {
    let mut d = DistribuidorRecompensas::new();
    let v = vec!["v1".to_string()];
    assert!(!d.validar_distribuicao(&distribuicao(800, &[199], 999)));
    assert_eq!(
        d.distribuir("p", &v, &distribuicao(800, &[199], 999)),
        Err(Erro::DistribuicaoInvalida)
    );
    assert_eq!(
        d.distribuir("p", &v, &distribuicao(800, &[100], 1000)),
        Err(Erro::DistribuicaoInvalida)
    );
    assert_eq!(
        d.distribuir("p", &v, &distribuicao(u64::MAX, &[u64::MAX], u64::MAX)),
        Err(Erro::DistribuicaoInvalida)
    );
    assert_eq!(d.obter_saldo("p"), None);
    assert_eq!(d.obter_estatisticas().numero_distribuicoes, 0);
    d.definir_taxa_minima(10);
    assert_eq!(d.distribuir("p", &v, &distribuicao(8, &[2], 10)), Ok(()));
}

#[test]
fn saque_exige_conta_e_saldo() {
    let mut d = DistribuidorRecompensas::new();
    d.creditar_conta("a", 50);
    assert_eq!(d.sacar("b", 1), Err(Erro::NaoEncontrado));
    assert_eq!(d.sacar("a", 51), Err(Erro::SaldoInsuficiente));
    assert_eq!(d.sacar("a", 20), Ok(()));
    assert_eq!(d.obter_saldo("a"), Some(30));
    assert_eq!(d.obter_conta("a").unwrap().total_recebido, 50);
    assert_eq!(d.sacar("a", 30), Ok(()));
    assert_eq!(d.obter_saldo("a"), Some(0));
}

#[test]
fn vida_de_um_registro() {
    let p = StatusRegistro::Pendente;
    assert_eq!(p.confirmar(), StatusRegistro::Confirmado);
    assert_eq!(p.falhar(), StatusRegistro::Falhou);
    assert_eq!(p.reverter(), Err(Erro::StatusInvalido));
    assert_eq!(StatusRegistro::Falhou.reverter(), Err(Erro::StatusInvalido));
    assert_eq!(StatusRegistro::Revertido.reverter(), Err(Erro::StatusInvalido));
    assert_eq!(StatusRegistro::Confirmado.reverter(), Ok(StatusRegistro::Revertido));
}

#[test]
fn filtro_do_ledger() {
    let r = DadosRegistro {
        transacao_id: "t1".to_string(),
        timestamp: agora(),
        status: StatusRegistro::Confirmado,
        nos: vec!["p".to_string(), "v1".to_string()],
    };
    let vazio = || FiltroLedger {
        transacao_id: None,
        status: None,
        data_inicio: None,
        data_fim: None,
        no_id: None,
    };
    assert!(aplicar_filtro(&r, &vazio()));
    let mut f = vazio();
    f.transacao_id = Some("t1".to_string());
    f.status = Some(StatusRegistro::Confirmado);
    f.data_inicio = Some(agora());
    f.data_fim = Some(agora());
    f.no_id = Some("v1".to_string());
    assert!(aplicar_filtro(&r, &f));
    let mut g = vazio();
    g.transacao_id = Some("t2".to_string());
    assert!(!aplicar_filtro(&r, &g));
    let mut g = vazio();
    g.status = Some(StatusRegistro::Pendente);
    assert!(!aplicar_filtro(&r, &g));
    let mut g = vazio();
    g.data_inicio = Some(Instante::new(1_700_000_000, 1));
    assert!(!aplicar_filtro(&r, &g));
    let mut g = vazio();
    g.data_fim = Some(Instante::new(1_699_999_999, 0));
    assert!(!aplicar_filtro(&r, &g));
    let mut g = vazio();
    g.no_id = Some("v2".to_string());
    assert!(!aplicar_filtro(&r, &g));
}

#[test]
fn registro_antigo_por_dias() {
    let t = Instante::new(1_700_000_000 - 86_400, 0);
    assert!(!registro_antigo(t, agora(), 1));
    assert!(registro_antigo(Instante::new(1_700_000_000 - 86_401, 0), agora(), 1));
    assert!(registro_antigo(t, agora(), 0));
}

#[test]
fn mapa_guarda_a_ordem_de_entrada() {
    let mut m: MapaOrdenado<u64> = MapaOrdenado::new();
    m.inserir(b"b".to_vec(), 1);
    m.inserir(b"a".to_vec(), 2);
    m.inserir(b"b".to_vec(), 3);
    assert_eq!(m.len(), 2);
    assert_eq!(m.chave_em(0), &b"b".to_vec());
    assert_eq!(m.valor_em(0), &3);
    assert_eq!(m.posicao_de(b"a"), Some(1));
    assert_eq!(m.obter(b"a"), Some(&2));
    assert_eq!(m.obter(b"c"), None);
    assert!(m.contem_chave(b"b"));
    assert!(!m.remover(b"c"));
    assert!(m.remover(b"b"));
    assert_eq!(m.posicao_de(b"a"), Some(0));
    m.inserir(b"c".to_vec(), 4);
    m.inserir(b"d".to_vec(), 5);
    m.remover_mais_antigos(2);
    assert_eq!(m.len(), 1);
    assert_eq!(m.chave_em(0), &b"d".to_vec());
    m.remover_mais_antigos(9);
    assert_eq!(m.len(), 0);
    m.inserir(b"x".to_vec(), 1);
    let c = m.duplicar();
    m.limpar();
    assert_eq!(m.len(), 0);
    assert_eq!(c.obter(b"x"), Some(&1));
}

#[test]
fn ordem_por_latencia_e_estavel() {
    assert_eq!(ordem_por_latencia(&vec![30, 10, 20, 10, 30, 0]), vec![5, 1, 3, 2, 0, 4]);
    assert_eq!(ordem_por_latencia(&vec![]), Vec::<usize>::new());
    assert_eq!(ordem_por_latencia(&vec![7]), vec![0]);
    assert_eq!(ordem_por_latencia(&vec![1, 1, 1]), vec![0, 1, 2]);
    assert_eq!(ordem_por_latencia(&vec![3, 2, 1]), vec![2, 1, 0]);
}
