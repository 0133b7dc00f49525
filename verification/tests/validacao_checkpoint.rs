use nimbos::blockchain::bloco::Bloco;
use nimbos::blockchain::cadeia::CadeiaBlockchain;
use nimbos::blockchain::camada::CamadaBlockchain;
use nimbos::blockchain::checkpoint::{
    calcular_estado_atual, Checkpoint, EstadoCheckpoint, SistemaCheckpoint,
};
use nimbos::blockchain::validador_cadeia::{
    nova_media, somar_um, AvisoValidacao, ConfiguracaoValidador, FalhaValidacao, ValidadorCadeia,
};
use nimbos::codificacao::{escrever_bytes, escrever_u64};
use nimbos::consenso::tipos::{calcular_hash, concatenar, Transacao};
use nimbos::erro::Erro;
use nimbos::tempo::Instante;

const AGORA: i64 = 1_700_000_000;

fn agora() -> Instante {
    Instante::new(AGORA, 0)
}

fn transacao(id: &str) -> Transacao {
    Transacao {
        id: id.to_string(),
        dados: vec![1],
        estado_anterior: vec![2],
        estado_final: vec![3],
        timestamp: agora(),
        nonce: 0,
        assinatura: vec![4],
    }
}

fn cadeia_com(blocos: &[&[&str]]) -> CadeiaBlockchain {
    let mut c = CadeiaBlockchain::new();
    c.inicializar_com_genesis(agora()).unwrap();
    for ids in blocos {
        let txs = ids.iter().map(|i| transacao(i)).collect();
        let b = c.criar_proximo_bloco(txs, agora()).unwrap();
        c.adicionar_bloco(b).unwrap();
    }
    c
}

fn proximo(c: &CadeiaBlockchain, ids: &[&str]) -> Bloco {
    c.criar_proximo_bloco(ids.iter().map(|i| transacao(i)).collect(), agora()).unwrap()
}

fn sem_verificacoes() -> ConfiguracaoValidador {
    ConfiguracaoValidador {
        validar_assinaturas: false,
        validar_merkle_trees: false,
        validar_dificuldade: false,
        validar_transacoes_duplicadas: false,
        timeout_validacao_segundos: 30,
        tamanho_cache: 1000,
    }
}

#[test]
fn configuracao_padrao_do_validador() {
    let c = ConfiguracaoValidador::default();
    assert!(c.validar_assinaturas && c.validar_merkle_trees);
    assert!(c.validar_dificuldade && c.validar_transacoes_duplicadas);
    assert_eq!(c.timeout_validacao_segundos, 30);
    assert_eq!(c.tamanho_cache, 1000);
}

#[test]
fn bloco_bom_e_valido_e_conta_nas_estatisticas() {
    let c = cadeia_com(&[&["a"]]);
    let b = proximo(&c, &["b", "c"]);
    let mut v = ValidadorCadeia::new();
    assert!(v.validar_bloco(&b, &c, agora(), 40));
    let e = v.obter_estatisticas();
    assert_eq!(e.total_validacoes, 1);
    assert_eq!(e.validacoes_bem_sucedidas, 1);
    assert_eq!(e.validacoes_falharam, 0);
    assert_eq!(e.tempo_medio_validacao_ms, 40);
    assert_eq!(e.ultimo_bloco_validado, Some(2));
}

#[test]
fn veredito_em_cache_nao_e_recalculado() {
    let c = cadeia_com(&[]);
    let b = proximo(&c, &["a"]);
    let mut v = ValidadorCadeia::new();
    assert!(v.validar_bloco(&b, &c, agora(), 10));
    // The second look would find `a` among the seen transactions; the
    // cached verdict stands, and the statistics do not move.
    assert!(v.validar_bloco(&b, &c, agora(), 10));
    assert_eq!(v.obter_estatisticas().total_validacoes, 1);
    v.limpar_cache();
    assert!(!v.validar_bloco(&b, &c, agora(), 30));
    let e = v.obter_estatisticas();
    assert_eq!(e.total_validacoes, 2);
    assert_eq!(e.validacoes_falharam, 1);
    assert_eq!(e.tempo_medio_validacao_ms, 20);
}

#[test]
fn transacao_vista_em_bloco_anterior_invalida_o_bloco() {
    let c = cadeia_com(&[]);
    let mut v = ValidadorCadeia::new();
    assert!(v.validar_bloco(&proximo(&c, &["a", "b"]), &c, agora(), 0));
    assert!(!v.validar_bloco(&proximo(&c, &["c", "b"]), &c, agora(), 0));
    // A block that failed leaves the seen set as it was.
    assert!(v.validar_bloco(&proximo(&c, &["c"]), &c, agora(), 0));
    let mut sem = ValidadorCadeia::new_com_configuracao(ConfiguracaoValidador {
        validar_transacoes_duplicadas: false,
        ..ConfiguracaoValidador::default()
    });
    assert!(sem.validar_bloco(&proximo(&c, &["a", "b"]), &c, agora(), 0));
    assert!(sem.validar_bloco(&proximo(&c, &["c", "b"]), &c, agora(), 0));
}

#[test]
fn transacao_repetida_no_bloco_invalida_o_bloco() {
    let c = cadeia_com(&[]);
    let mut v = ValidadorCadeia::new();
    assert!(!v.validar_bloco(&proximo(&c, &["a", "b", "a"]), &c, agora(), 0));
}

#[test]
fn transacao_mal_formada_invalida_o_bloco() {
    let c = cadeia_com(&[]);
    let mut v = ValidadorCadeia::new();
    let mut tx = transacao("a");
    tx.assinatura = vec![];
    let b = c.criar_proximo_bloco(vec![tx], agora()).unwrap();
    assert!(!v.validar_bloco(&b, &c, agora(), 0));
    assert!(v.validar_transacao_individual(&transacao("a"), agora()));
    let mut tx = transacao("a");
    tx.timestamp = Instante::new(AGORA + 301, 0);
    assert!(!v.validar_transacao_individual(&tx, agora()));
}

#[test]
fn bloco_do_futuro_e_invalido() {
    let c = cadeia_com(&[]);
    // Ten minutes ahead of the clock is accepted, a second more is not.
    let b = proximo(&c, &[]);
    let mut v = ValidadorCadeia::new();
    assert!(v.validar_bloco(&b, &c, Instante::new(AGORA - 600, 0), 0));
    let mut v = ValidadorCadeia::new();
    assert!(!v.validar_bloco(&b, &c, Instante::new(AGORA - 601, 0), 0));
    let tarde = c.criar_proximo_bloco(vec![], Instante::new(AGORA + 601, 0)).unwrap();
    assert!(!ValidadorCadeia::new().validar_bloco(&tarde, &c, agora(), 0));
}

#[test]
fn ligacao_com_a_cadeia() {
    let c = cadeia_com(&[&["a"]]);
    let mut v = ValidadorCadeia::new_com_configuracao(sem_verificacoes());
    // A block whose predecessor is not in the chain.
    let mut b = Bloco::new(5, vec![1; 32], vec![], "m".to_string(), 0, agora()).unwrap();
    assert!(!v.validar_bloco(&b, &c, agora(), 0));
    // A block that points at another hash.
    b = Bloco::new(2, vec![1; 32], vec![], "m".to_string(), 0, agora()).unwrap();
    assert!(!v.validar_bloco(&b, &c, agora(), 0));
    // A block on top of block 0: the validator looks at the block before
    // it, not at the tip.
    let g = c.obter_bloco_por_numero(0).unwrap();
    b = Bloco::new(1, g.hash_bloco, vec![], "m".to_string(), 0, agora()).unwrap();
    assert!(v.validar_bloco(&b, &c, agora(), 0));
    // A genesis must point at zeros.
    b = Bloco::new(0, vec![0; 32], vec![], "m".to_string(), 0, agora()).unwrap();
    assert!(v.validar_bloco(&b, &c, agora(), 0));
    b = Bloco::new(0, vec![0, 1], vec![], "m".to_string(), 0, agora()).unwrap();
    assert!(!v.validar_bloco(&b, &c, agora(), 0));
}

#[test]
fn dificuldade_so_conta_quando_ligada() {
    let c = cadeia_com(&[]);
    let t = c.obter_ultimo_bloco().unwrap().hash_bloco;
    let mut b = Bloco::new(1, t, vec![], "m".to_string(), 60, agora()).unwrap();
    b.minerar(2).unwrap();
    b.assinatura_minerador = b.assinar_bloco();
    let mut v = ValidadorCadeia::new();
    assert!(!v.validar_bloco(&b, &c, agora(), 0));
    let mut v = ValidadorCadeia::new_com_configuracao(ConfiguracaoValidador {
        validar_dificuldade: false,
        ..ConfiguracaoValidador::default()
    });
    assert!(v.validar_bloco(&b, &c, agora(), 0));
}

#[test]
fn cache_cheio_despeja_o_decimo_mais_antigo() {
    let c = cadeia_com(&[]);
    let mut v = ValidadorCadeia::new_com_configuracao(ConfiguracaoValidador {
        tamanho_cache: 20,
        validar_transacoes_duplicadas: false,
        ..ConfiguracaoValidador::default()
    });
    let blocos: Vec<Bloco> = (0..21).map(|i| proximo(&c, &[&format!("t{}", i)])).collect();
    for b in &blocos {
        assert!(v.validar_bloco(b, &c, agora(), 0));
    }
    assert_eq!(v.obter_estatisticas().total_validacoes, 21);
    // The cache was full at the twenty-first block: the two oldest left.
    for b in &blocos[2..] {
        v.validar_bloco(b, &c, agora(), 0);
    }
    assert_eq!(v.obter_estatisticas().total_validacoes, 21);
    v.validar_bloco(&blocos[0], &c, agora(), 0);
    assert_eq!(v.obter_estatisticas().total_validacoes, 22);
}

#[test]
fn conjunto_de_vistas_e_aparado_acima_de_dez_mil() {
    let c = cadeia_com(&[]);
    let mut v = ValidadorCadeia::new_com_configuracao(ConfiguracaoValidador {
        validar_assinaturas: false,
        validar_merkle_trees: false,
        validar_dificuldade: false,
        validar_transacoes_duplicadas: true,
        timeout_validacao_segundos: 30,
        tamanho_cache: 10,
    });
    let g = c.obter_bloco_por_numero(0).unwrap().hash_bloco;
    let bloco = |de: usize, ate: usize| {
        let txs = (de..ate).map(|i| transacao(&format!("t{}", i))).collect();
        let mut b = Bloco::new(1, g.clone(), txs, "m".to_string(), 0, agora()).unwrap();
        b.nonce = de as u64;
        b.hash_bloco = b.calcular_hash().unwrap();
        b.assinatura_minerador = b.assinar_bloco();
        b
    };
    assert!(v.validar_bloco(&bloco(0, 2500), &c, agora(), 0));
    assert!(v.validar_bloco(&bloco(2500, 5000), &c, agora(), 0));
    assert!(v.validar_bloco(&bloco(5000, 7500), &c, agora(), 0));
    assert!(v.validar_bloco(&bloco(7500, 10_000), &c, agora(), 0));
    // Ten thousand ids are kept whole.
    assert!(!v.validar_bloco(&bloco(0, 1), &c, agora(), 0));
    // One more id trims the thousand oldest.
    assert!(v.validar_bloco(&bloco(10_000, 10_001), &c, agora(), 0));
    assert!(!v.validar_bloco(&bloco(1000, 1001), &c, agora(), 0));
    assert!(v.validar_bloco(&bloco(999, 1000), &c, agora(), 0));
}

#[test]
fn media_e_contadores() {
    assert_eq!(somar_um(0), 1);
    assert_eq!(somar_um(u64::MAX), u64::MAX);
    assert_eq!(nova_media(0, 1, 40), 40);
    assert_eq!(nova_media(40, 2, 10), 25);
    assert_eq!(nova_media(25, 3, 0), 16);
    assert_eq!(nova_media(u64::MAX, u64::MAX, u64::MAX), u64::MAX);
}

#[test]
fn falhas_e_avisos_sao_valores() {
    assert_ne!(FalhaValidacao::TransacaoInvalida(0), FalhaValidacao::TransacaoInvalida(1));
    assert_ne!(AvisoValidacao::AssinaturaMineradorVazia, AvisoValidacao::TimestampNaoCrescente);
}

#[test]
fn varredura_da_cadeia_pelo_validador() {
    let c = cadeia_com(&[&["a"], &["b"]]);
    let mut v = ValidadorCadeia::new();
    assert!(v.validar_cadeia_completa(&c, agora(), 5));
    assert_eq!(v.obter_estatisticas().total_validacoes, 3);
    assert_eq!(v.obter_estatisticas().ultimo_bloco_validado, Some(2));
    // A second sweep answers from the cache.
    assert!(v.validar_cadeia_completa(&c, agora(), 5));
    assert_eq!(v.obter_estatisticas().total_validacoes, 3);
    // A chain without blocks is not valid.
    assert!(!ValidadorCadeia::new().validar_cadeia_completa(&CadeiaBlockchain::new(), agora(), 0));
    // A repeated transaction id across blocks fails the sweep.
    let c = cadeia_com(&[&["a"], &["a"]]);
    assert!(!ValidadorCadeia::new().validar_cadeia_completa(&c, agora(), 0));
}

fn valor_u64(m: &nimbos::mapa::MapaOrdenado<u64>, chave: &[u8]) -> Option<u64> {
    m.obter(chave).copied()
}

#[test]
fn estado_derivado_da_cadeia() {
    let c = cadeia_com(&[&["a", "b"], &["a"]]);
    let e = calcular_estado_atual(&c, 2, agora()).unwrap();
    assert_eq!(valor_u64(&e.nonces, b"a"), Some(2));
    assert_eq!(valor_u64(&e.nonces, b"b"), Some(1));
    assert_eq!(valor_u64(&e.balances, b"a"), Some(998));
    assert_eq!(valor_u64(&e.balances, b"b"), Some(999));
    assert_eq!(valor_u64(&e.balances, b"c"), None);
    assert_eq!(e.contratos.len(), 0);
    assert_eq!(e.metadata.obter(b"ultimo_bloco"), Some(&b"2".to_vec()));
    assert_eq!(e.metadata.obter(b"timestamp"), Some(&b"2023-11-14T22:13:20Z".to_vec()));
    // Up to block 1 only.
    let e = calcular_estado_atual(&c, 1, agora()).unwrap();
    assert_eq!(valor_u64(&e.nonces, b"a"), Some(1));
    assert!(matches!(
        calcular_estado_atual(&c, 1, Instante::new(i64::MAX, 0)),
        Err(Erro::TimestampSemTexto)
    ));
}

#[test]
fn estado_serializado_em_ordem_de_entrada() {
    let mut e = EstadoCheckpoint::novo();
    e.aplicar_transacao(b"x");
    let mut esperado = Vec::new();
    // balances
    escrever_u64(&mut esperado, 1);
    escrever_bytes(&mut esperado, b"x");
    escrever_u64(&mut esperado, 999);
    // contratos
    escrever_u64(&mut esperado, 0);
    // nonces
    escrever_u64(&mut esperado, 1);
    escrever_bytes(&mut esperado, b"x");
    escrever_u64(&mut esperado, 1);
    // metadata
    escrever_u64(&mut esperado, 0);
    assert_eq!(e.serializar(), esperado);
    let c = e.duplicar();
    assert_eq!(c.serializar(), esperado);
}

#[test]
fn saldo_nao_passa_de_zero() {
    let mut e = EstadoCheckpoint::novo();
    for _ in 0..1001 {
        e.aplicar_transacao(b"x");
    }
    assert_eq!(valor_u64(&e.balances, b"x"), Some(0));
    assert_eq!(valor_u64(&e.nonces, b"x"), Some(1001));
}

#[test]
fn checkpoint_e_devido_a_cada_intervalo() {
    let c = cadeia_com(&[&["a"], &["b"], &["c"]]);
    let mut s = SistemaCheckpoint::new_com_intervalo(2);
    assert!(s.deve_criar_checkpoint(&c));
    assert!(!SistemaCheckpoint::new().deve_criar_checkpoint(&c));
    assert!(!SistemaCheckpoint::new_com_intervalo(4).deve_criar_checkpoint(&c));
    assert!(SistemaCheckpoint::new_com_intervalo(3).deve_criar_checkpoint(&c));
    s.criar_checkpoint(&c, agora()).unwrap();
    assert!(!s.deve_criar_checkpoint(&c));
    assert_eq!(s.processar_bloco(&c, agora()), Ok(false));
}

#[test]
fn checkpoint_novo_e_valido() {
    let c = cadeia_com(&[&["a", "b"], &["a"]]);
    let mut s = SistemaCheckpoint::new();
    assert!(s.obter_checkpoint_mais_recente().is_none());
    s.criar_checkpoint(&c, agora()).unwrap();
    let cp = s.obter_checkpoint_mais_recente().unwrap();
    let ponta = c.obter_ultimo_bloco().unwrap();
    assert_eq!(cp.numero_bloco, 2);
    assert_eq!(cp.hash_bloco, ponta.hash_bloco);
    assert_eq!(cp.timestamp, agora());
    assert_eq!(cp.validadores, vec!["validador_principal".to_string()]);
    let estado = s.obter_estado_checkpoint(2).unwrap();
    let serializado = estado.serializar();
    assert_eq!(cp.merkle_root_estado, calcular_hash(&serializado));
    assert_eq!(cp.assinatura, calcular_hash(&concatenar(&ponta.hash_bloco, &serializado)));
    assert_eq!(s.validar_checkpoint(&cp, &c), Ok(true));
    assert_eq!(s.restaurar_de_checkpoint(2).unwrap().serializar(), serializado);
    assert!(matches!(s.restaurar_de_checkpoint(1), Err(Erro::NaoEncontrado)));
    assert!(s.obter_estado_checkpoint(1).is_none());
    let e = s.obter_estatisticas();
    assert_eq!(e.len(), 4);
    assert_eq!(e[0], ("total_checkpoints".to_string(), 1));
    assert_eq!(e[1], ("total_estados".to_string(), 1));
    assert_eq!(e[2], ("intervalo_checkpoint".to_string(), 100));
    assert_eq!(e[3], ("ultimo_checkpoint".to_string(), 2));
    assert_eq!(SistemaCheckpoint::new().obter_estatisticas().len(), 3);
}

#[test]
fn processar_bloco_faz_o_checkpoint_da_ponta() {
    let mut c = cadeia_com(&[&["a"], &["b"]]);
    let mut s = SistemaCheckpoint::new_com_intervalo(2);
    assert_eq!(s.processar_bloco(&c, agora()), Ok(true));
    let primeiro = s.obter_checkpoint_mais_recente().unwrap();
    assert_eq!(primeiro.numero_bloco, 2);
    assert_eq!(primeiro.timestamp, agora());
    assert_eq!(s.validar_checkpoint(&primeiro, &c), Ok(true));
    // Not due again before two more blocks.
    let b = proximo(&c, &["c"]);
    c.adicionar_bloco(b).unwrap();
    assert_eq!(s.processar_bloco(&c, agora()), Ok(false));
    let b = proximo(&c, &["d"]);
    c.adicionar_bloco(b).unwrap();
    let depois = Instante::new(AGORA + 60, 0);
    assert_eq!(s.processar_bloco(&c, depois), Ok(true));
    let segundo = s.obter_checkpoint_mais_recente().unwrap();
    let ponta = c.obter_ultimo_bloco().unwrap();
    assert_eq!(segundo.numero_bloco, 4);
    assert_eq!(segundo.hash_bloco, ponta.hash_bloco);
    assert_eq!(segundo.timestamp, depois);
    let serializado = calcular_estado_atual(&c, 4, depois).unwrap().serializar();
    assert_eq!(segundo.merkle_root_estado, calcular_hash(&serializado));
    assert_eq!(segundo.assinatura, calcular_hash(&concatenar(&ponta.hash_bloco, &serializado)));
    assert_eq!(s.obter_estado_checkpoint(4).unwrap().serializar(), serializado);
    // The first one is still there.
    assert!(s.obter_estado_checkpoint(2).is_some());
    assert_eq!(s.obter_estatisticas()[0], ("total_checkpoints".to_string(), 2));
    // A stamp without text makes no checkpoint.
    let mut t = SistemaCheckpoint::new_com_intervalo(2);
    assert_eq!(t.processar_bloco(&c, Instante::new(i64::MAX, 0)), Err(Erro::TimestampSemTexto));
    assert!(t.obter_checkpoint_mais_recente().is_none());
}

fn adulterado(cp: &Checkpoint) -> Checkpoint {
    cp.duplicar()
}

#[test]
fn checkpoint_adulterado_nao_e_valido() {
    let c = cadeia_com(&[&["a"]]);
    let mut s = SistemaCheckpoint::new();
    s.criar_checkpoint(&c, agora()).unwrap();
    let cp = s.obter_checkpoint_mais_recente().unwrap();
    let mut x = adulterado(&cp);
    x.hash_bloco[0] ^= 1;
    assert_eq!(s.validar_checkpoint(&x, &c), Ok(false));
    let mut x = adulterado(&cp);
    x.merkle_root_estado[0] ^= 1;
    assert_eq!(s.validar_checkpoint(&x, &c), Ok(false));
    let mut x = adulterado(&cp);
    x.assinatura[0] ^= 1;
    assert_eq!(s.validar_checkpoint(&x, &c), Ok(false));
    // The state is stamped with the instant of the checkpoint.
    let mut x = adulterado(&cp);
    x.timestamp = Instante::new(AGORA + 1, 0);
    assert_eq!(s.validar_checkpoint(&x, &c), Ok(false));
    let mut x = adulterado(&cp);
    x.numero_bloco = 9;
    assert_eq!(s.validar_checkpoint(&x, &c), Err(Erro::NaoEncontrado));
    let mut x = adulterado(&cp);
    x.timestamp = Instante::new(i64::MAX, 0);
    assert_eq!(s.validar_checkpoint(&x, &c), Err(Erro::TimestampSemTexto));
    // Against a chain that grew, the checkpoint of block 1 stays valid.
    let d = cadeia_com(&[&["a"]]);
    assert_eq!(s.validar_checkpoint(&cp, &d), Ok(true));
}

#[test]
fn checkpoint_sem_bloco_ou_sem_texto_falha() {
    let mut s = SistemaCheckpoint::new();
    assert_eq!(s.criar_checkpoint(&CadeiaBlockchain::new(), agora()), Err(Erro::NaoEncontrado));
    let c = cadeia_com(&[]);
    assert_eq!(s.criar_checkpoint(&c, Instante::new(i64::MAX, 0)), Err(Erro::TimestampSemTexto));
    assert!(s.obter_checkpoint_mais_recente().is_none());
}

#[test]
fn limpeza_guarda_os_ultimos_checkpoints() {
    let mut c = cadeia_com(&[]);
    let mut s = SistemaCheckpoint::new_com_intervalo(1);
    for i in 0..4 {
        let b = proximo(&c, &[&format!("t{}", i)]);
        c.adicionar_bloco(b).unwrap();
        assert_eq!(s.processar_bloco(&c, agora()), Ok(true));
    }
    assert_eq!(s.obter_estatisticas()[0].1, 4);
    s.limpar_checkpoints_antigos(5);
    assert_eq!(s.obter_estatisticas()[0].1, 4);
    s.limpar_checkpoints_antigos(1);
    assert_eq!(s.obter_estatisticas()[0].1, 1);
    assert_eq!(s.obter_estatisticas()[1].1, 1);
    assert_eq!(s.obter_checkpoint_mais_recente().unwrap().numero_bloco, 4);
    assert!(s.obter_estado_checkpoint(4).is_some());
    assert!(s.obter_estado_checkpoint(3).is_none());
    s.limpar_checkpoints_antigos(0);
    assert!(s.obter_checkpoint_mais_recente().is_none());
    assert!(s.obter_estado_checkpoint(4).is_none());
}

#[test]
fn camada_blockchain_cria_valida_e_acrescenta() {
    let mut camada = CamadaBlockchain::new();
    assert!(!camada.tem_persistencia());
    assert_eq!(camada.cadeia().obter_tamanho_cadeia(), 0);
    assert_eq!(camada.cadeia().obter_dificuldade(), 1);
    let g = camada.adicionar_bloco(vec![], agora(), 0).unwrap();
    assert_eq!(g.numero, 0);
    assert_eq!(g.hash_anterior, vec![0u8; 32]);
    let b = camada.adicionar_bloco(vec![transacao("a")], agora(), 0).unwrap();
    assert_eq!(b.numero, 1);
    assert_eq!(b.hash_anterior, g.hash_bloco);
    assert_eq!(camada.cadeia().obter_tamanho_cadeia(), 2);
    // The validator has seen `a`.
    assert!(matches!(
        camada.adicionar_bloco(vec![transacao("a")], agora(), 0),
        Err(Erro::EstruturaBlocoInvalida)
    ));
    assert!(matches!(
        camada.adicionar_bloco(vec![], Instante::new(i64::MAX, 0), 0),
        Err(Erro::TimestampSemTexto)
    ));
    assert_eq!(camada.cadeia().obter_tamanho_cadeia(), 2);
    assert!(camada.cadeia().validar_cadeia_completa());
    let persistente = CamadaBlockchain::new_com_persistencia(cadeia_com(&[&["z"]]));
    assert!(persistente.tem_persistencia());
    assert_eq!(persistente.cadeia().obter_tamanho_cadeia(), 2);
}
