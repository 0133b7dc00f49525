use nimbos::blockchain::bloco::Bloco;
use nimbos::blockchain::cadeia::CadeiaBlockchain;
use nimbos::blockchain::migrador::MigradorDados;
use nimbos::blockchain::persistencia::{
    chave_altura_vec, chave_do_bloco, digitos_decimais, e_chave_de_bloco, registros_do_bloco,
};
use nimbos::consenso::tipos::Transacao;
use nimbos::erro::Erro;
use nimbos::tempo::Instante;

fn instante() -> Instante {
    Instante::new(1_700_000_000, 0)
}

fn transacao(id: &str, dados: &[u8]) -> Transacao {
    Transacao {
        id: id.to_string(),
        dados: dados.to_vec(),
        estado_anterior: vec![1],
        estado_final: vec![2],
        timestamp: instante(),
        nonce: 1,
        assinatura: vec![3],
    }
}

fn cadeia_com_genesis() -> CadeiaBlockchain {
    let mut c = CadeiaBlockchain::new();
    c.inicializar_com_genesis(instante()).unwrap();
    c
}

fn cadeia_de(n: usize) -> CadeiaBlockchain {
    let mut c = cadeia_com_genesis();
    for i in 1..n {
        let b = c
            .criar_proximo_bloco(vec![transacao(&format!("t{}", i), b"x")], instante())
            .unwrap();
        c.adicionar_bloco(b).unwrap();
    }
    c
}

fn contador(stats: &[(String, u64)], nome: &str) -> u64 {
    stats.iter().find(|(n, _)| n == nome).unwrap().1
}

#[test]
fn cadeia_nova_e_vazia() {
    let c = CadeiaBlockchain::new();
    assert_eq!(c.obter_tamanho_cadeia(), 0);
    assert_eq!(c.obter_altura(), 0);
    assert_eq!(c.obter_dificuldade(), 1);
    assert!(c.obter_ultimo_bloco().is_none());
    assert!(c.obter_bloco_por_numero(0).is_none());
    assert!(c.validar_cadeia_completa());
}

#[test]
fn genesis_entra_na_cadeia() {
    let c = cadeia_com_genesis();
    assert_eq!(c.obter_tamanho_cadeia(), 1);
    assert_eq!(c.obter_altura(), 0);
    let g = c.obter_bloco_por_numero(0).unwrap();
    assert_eq!(g.numero, 0);
    assert_eq!(g.hash_anterior, vec![0u8; 32]);
    assert_eq!(g.merkle_root, vec![0u8; 32]);
    assert!(g.validar_estrutura());
    assert!(g.validar_dificuldade());
    assert!(c.validar_cadeia_completa());
}

#[test]
fn inicializar_com_genesis_e_idempotente() {
    let mut c = cadeia_com_genesis();
    let g = c.obter_bloco_por_numero(0).unwrap();
    assert_eq!(c.inicializar_com_genesis(Instante::new(5, 0)), Ok(()));
    assert_eq!(c.obter_tamanho_cadeia(), 1);
    assert_eq!(c.obter_bloco_por_numero(0).unwrap().hash_bloco, g.hash_bloco);
}

#[test]
fn acrescenta_bloco_minerado() {
    let mut c = cadeia_com_genesis();
    let t = c.obter_ultimo_bloco().unwrap().hash_bloco;
    let mut b1 = Bloco::new(
        1,
        t.clone(),
        vec![transacao("t1", b"hello")],
        "m".to_string(),
        1,
        instante(),
    )
    .unwrap();
    assert!(b1.minerar(1000).unwrap());
    assert_eq!(b1.hash_anterior, t);
    assert_eq!(b1.hash_bloco[0] >> 4, 0);
    assert!(c.validar_bloco_para_adicao(&b1));
    assert_eq!(c.adicionar_bloco(b1.duplicar()), Ok(()));
    assert_eq!(c.obter_tamanho_cadeia(), 2);
    assert_eq!(c.obter_altura(), 1);
    let por_numero = c.obter_bloco_por_numero(1).unwrap();
    assert_eq!(por_numero.hash_bloco, b1.hash_bloco);
    assert_eq!(por_numero.transacoes[0].id, "t1");
    let por_hash = c.obter_bloco_por_hash(&b1.hash_bloco).unwrap();
    assert_eq!(por_hash.numero, 1);
    assert_eq!(c.obter_ultimo_bloco().unwrap().hash_bloco, b1.hash_bloco);
    assert!(c.obter_bloco_por_hash(&[0u8; 32]).is_none());
    assert!(c.validar_cadeia_completa());
}

#[test]
fn recusa_bloco_fora_de_sequencia() {
    let mut c = cadeia_de(2);
    let t = c.obter_ultimo_bloco().unwrap().hash_bloco;
    let mut b = Bloco::new(3, t, vec![], "m".to_string(), 1, instante()).unwrap();
    assert!(b.minerar(1000).unwrap());
    assert!(!c.validar_bloco_para_adicao(&b));
    assert_eq!(c.classificar(&b), Some(Erro::ForaDeSequencia));
    assert_eq!(c.adicionar_bloco(b), Err(Erro::ForaDeSequencia));
    assert_eq!(c.obter_tamanho_cadeia(), 2);
}

#[test]
fn recusa_bloco_por_cada_regra() {
    let mut c = cadeia_de(2);
    let bom = c.criar_proximo_bloco(vec![transacao("x", b"y")], instante()).unwrap();
    // Structure: the block hash, the Merkle root, the miner signature.
    let mut b = bom.duplicar();
    b.hash_bloco[5] ^= 1;
    assert_eq!(c.adicionar_bloco(b), Err(Erro::EstruturaBlocoInvalida));
    let mut b = bom.duplicar();
    b.transacoes[0].nonce += 1;
    assert_eq!(b.diagnosticar_estrutura(), Some(Erro::MerkleDivergente));
    assert_eq!(c.adicionar_bloco(b), Err(Erro::MerkleDivergente));
    let mut b = bom.duplicar();
    b.minerador_id = "outro".to_string();
    assert_eq!(c.adicionar_bloco(b), Err(Erro::AssinaturaInvalida));
    assert_eq!(bom.diagnosticar_estrutura(), None);
    // Proof of work at the declared difficulty.
    let mut b = Bloco::new(2, bom.hash_anterior.clone(), vec![], "m".to_string(), 60, instante())
        .unwrap();
    assert_eq!(b.minerar(2), Ok(false));
    b.assinatura_minerador = b.assinar_bloco();
    assert!(b.validar_estrutura());
    assert_eq!(c.adicionar_bloco(b), Err(Erro::DificuldadeNaoAtingida));
    // Link.
    let mut b = Bloco::new(2, vec![9u8; 32], vec![], "m".to_string(), 1, instante()).unwrap();
    assert!(b.minerar(1000).unwrap());
    assert_eq!(c.adicionar_bloco(b), Err(Erro::LigacaoInvalida));
    assert_eq!(c.obter_tamanho_cadeia(), 2);
    assert_eq!(c.adicionar_bloco(bom), Ok(()));
    assert_eq!(c.obter_tamanho_cadeia(), 3);
}

#[test]
fn cadeia_vazia_so_aceita_genesis_com_hash_zero() {
    let mut c = CadeiaBlockchain::new();
    let mut b = Bloco::new(1, vec![0u8; 32], vec![], "m".to_string(), 0, instante()).unwrap();
    assert!(b.minerar(1).unwrap());
    assert_eq!(c.adicionar_bloco(b), Err(Erro::ForaDeSequencia));
    let mut b = Bloco::new(0, vec![1u8; 32], vec![], "m".to_string(), 0, instante()).unwrap();
    assert!(b.minerar(1).unwrap());
    assert_eq!(c.adicionar_bloco(b), Err(Erro::LigacaoInvalida));
    let mut b = Bloco::new(0, vec![0u8; 32], vec![], "m".to_string(), 0, instante()).unwrap();
    assert!(b.minerar(1).unwrap());
    assert_eq!(c.adicionar_bloco(b), Ok(()));
}

#[test]
fn proximo_bloco_fica_sobre_a_ponta() {
    let c = cadeia_de(3);
    let ponta = c.obter_ultimo_bloco().unwrap();
    let b = c.criar_proximo_bloco(vec![transacao("a", b"b")], instante()).unwrap();
    assert_eq!(b.numero, 3);
    assert_eq!(b.hash_anterior, ponta.hash_bloco);
    assert_eq!(b.minerador_id, "minerador_atual");
    assert_eq!(b.dificuldade, 1);
    assert_eq!(b.timestamp, instante());
    assert!(c.validar_bloco_para_adicao(&b));
    assert!(matches!(
        c.criar_proximo_bloco(vec![], Instante::new(i64::MAX, 0)),
        Err(Erro::TimestampSemTexto)
    ));
}

#[test]
fn cadeia_liga_cada_bloco_ao_anterior() {
    let c = cadeia_de(6);
    for i in 1..6u64 {
        let b = c.obter_bloco_por_numero(i).unwrap();
        let a = c.obter_bloco_por_numero(i - 1).unwrap();
        assert_eq!(b.hash_anterior, a.hash_bloco);
        assert_eq!(b.numero, a.numero + 1);
    }
}

#[test]
fn dificuldade_sobe_aos_trinta_blocos_e_nunca_desce() {
    let mut c = cadeia_com_genesis();
    let mut anterior = c.obter_dificuldade();
    for i in 1..30usize {
        assert_eq!(c.obter_dificuldade(), 1);
        let b = c.criar_proximo_bloco(vec![], instante()).unwrap();
        c.adicionar_bloco(b).unwrap();
        assert!(c.obter_dificuldade() >= anterior);
        anterior = c.obter_dificuldade();
        assert_eq!(c.obter_tamanho_cadeia(), i + 1);
    }
    // Lengths 10 and 20 raised nothing; length 30 raised it by one.
    assert_eq!(c.obter_dificuldade(), 2);
    let b = c.criar_proximo_bloco(vec![], instante()).unwrap();
    assert_eq!(b.dificuldade, 2);
    assert_eq!(b.hash_bloco[0], 0);
    for i in 1..30u64 {
        assert!(
            c.obter_bloco_por_numero(i - 1).unwrap().dificuldade
                <= c.obter_bloco_por_numero(i).unwrap().dificuldade
        );
    }
}

#[test]
fn estatisticas_da_cadeia() {
    let c = cadeia_de(4);
    let s = c.obter_estatisticas();
    assert_eq!(s.len(), 4);
    assert_eq!(s[0].0, "total_blocos");
    assert_eq!(s[1].0, "altura_atual");
    assert_eq!(s[2].0, "dificuldade_atual");
    assert_eq!(s[3].0, "total_transacoes");
    assert_eq!(contador(&s, "total_blocos"), 4);
    assert_eq!(contador(&s, "altura_atual"), 3);
    assert_eq!(contador(&s, "dificuldade_atual"), 1);
    assert_eq!(contador(&s, "total_transacoes"), 3);
}

#[test]
fn chave_de_bloco_tem_dez_digitos() {
    assert_eq!(chave_do_bloco(0), b"bloco_0000000000".to_vec());
    assert_eq!(chave_do_bloco(7), b"bloco_0000000007".to_vec());
    assert_eq!(chave_do_bloco(1234567890), b"bloco_1234567890".to_vec());
    assert_eq!(chave_do_bloco(12345678901), b"bloco_12345678901".to_vec());
    assert_eq!(chave_do_bloco(u64::MAX), b"bloco_18446744073709551615".to_vec());
    assert_eq!(chave_altura_vec(), b"altura_atual".to_vec());
    assert_eq!(digitos_decimais(0), b"0".to_vec());
    assert_eq!(digitos_decimais(1090), b"1090".to_vec());
    assert!(e_chave_de_bloco(b"bloco_0000000001"));
    assert!(e_chave_de_bloco(b"bloco_"));
    assert!(!e_chave_de_bloco(b"bloco"));
    assert!(!e_chave_de_bloco(b"altura_atual"));
}

#[test]
fn registros_de_um_bloco() {
    let c = cadeia_de(3);
    let b = c.obter_bloco_por_numero(2).unwrap();
    let r = registros_do_bloco(&b).unwrap();
    assert_eq!(r.len(), 2);
    assert_eq!(r[0].0, b"bloco_0000000002".to_vec());
    assert_eq!(r[0].1, b.serializar_binario().unwrap());
    assert_eq!(r[1].0, b"altura_atual".to_vec());
    assert_eq!(r[1].1, vec![2, 0, 0, 0, 0, 0, 0, 0]);
}

fn registros_da_cadeia(c: &CadeiaBlockchain) -> Vec<(Vec<u8>, Vec<u8>)> {
    let mut r = Vec::new();
    for i in 0..c.obter_tamanho_cadeia() as u64 {
        let b = c.obter_bloco_por_numero(i).unwrap();
        r.push(registros_do_bloco(&b).unwrap().remove(0));
    }
    r.push((b"altura_atual".to_vec(), vec![0; 8]));
    r
}

#[test]
fn cadeia_volta_do_banco_em_qualquer_ordem() {
    let c = cadeia_de(5);
    let mut r = registros_da_cadeia(&c);
    r.reverse();
    r.swap(1, 3);
    let d = CadeiaBlockchain::carregar_dados_do_banco(&r).unwrap();
    assert_eq!(d.obter_tamanho_cadeia(), 5);
    assert_eq!(d.obter_altura(), 4);
    assert_eq!(d.obter_dificuldade(), 1);
    for i in 0..5u64 {
        assert_eq!(
            d.obter_bloco_por_numero(i).unwrap().hash_bloco,
            c.obter_bloco_por_numero(i).unwrap().hash_bloco
        );
    }
    assert!(d.validar_cadeia_completa());
    let vazia = CadeiaBlockchain::carregar_dados_do_banco(&Vec::new()).unwrap();
    assert_eq!(vazia.obter_tamanho_cadeia(), 0);
}

#[test]
fn banco_com_falha_aborta_a_carga() {
    let c = cadeia_de(4);
    // A record that does not decode.
    let mut r = registros_da_cadeia(&c);
    r[2].1 = vec![1, 2, 3];
    assert!(matches!(
        CadeiaBlockchain::carregar_dados_do_banco(&r),
        Err(Erro::Decodificacao)
    ));
    // A gap in the numbers.
    let mut r = registros_da_cadeia(&c);
    r.remove(1);
    assert!(matches!(
        CadeiaBlockchain::carregar_dados_do_banco(&r),
        Err(Erro::Persistencia)
    ));
    // A block twice.
    let mut r = registros_da_cadeia(&c);
    let repetido = r[1].clone();
    r.push(repetido);
    assert!(matches!(
        CadeiaBlockchain::carregar_dados_do_banco(&r),
        Err(Erro::Persistencia)
    ));
    // A block that does not link.
    let mut r = registros_da_cadeia(&c);
    let mut b = c.obter_bloco_por_numero(2).unwrap();
    b.hash_anterior = vec![5; 32];
    r[2].1 = b.serializar_binario().unwrap();
    assert!(matches!(
        CadeiaBlockchain::carregar_dados_do_banco(&r),
        Err(Erro::Persistencia)
    ));
}

#[test]
fn varredura_acusa_bloco_adulterado_no_banco() {
    let c = cadeia_de(3);
    let mut r = registros_da_cadeia(&c);
    let mut b = c.obter_bloco_por_numero(1).unwrap();
    b.transacoes[0].dados = b"outro".to_vec();
    r[1].1 = b.serializar_binario().unwrap();
    let d = CadeiaBlockchain::carregar_dados_do_banco(&r).unwrap();
    assert!(!d.validar_cadeia_completa());
    assert!(c.validar_cadeia_completa());
}

#[test]
fn migracao_copia_e_confere() {
    let origem = cadeia_de(4);
    let mut m = MigradorDados::new(origem, CadeiaBlockchain::new());
    assert!(!m.validar_migracao());
    assert_eq!(m.migrar_para_formato_otimizado(), Ok(4));
    assert!(m.validar_migracao());
    let destino = m.concluir();
    assert_eq!(destino.obter_tamanho_cadeia(), 4);
    // A destination that already has blocks refuses the first block.
    let mut m = MigradorDados::new(cadeia_de(2), cadeia_de(1));
    assert_eq!(m.migrar_para_formato_otimizado(), Err((0, Erro::ForaDeSequencia)));
    assert!(!m.validar_migracao());
}
