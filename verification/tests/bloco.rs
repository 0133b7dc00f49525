use nimbos::blockchain::bloco::Bloco;
use nimbos::blockchain::formato::quadro_e_aceito;
use nimbos::codificacao::{escrever_bytes, escrever_texto, escrever_u32, escrever_u64};
use nimbos::consenso::tipos::{calcular_hash, concatenar, Transacao};
use nimbos::erro::Erro;
use nimbos::tempo::Instante;

fn instante() -> Instante {
    Instante::new(1_700_000_000, 0)
}

fn transacao(id: &str, dados: &[u8]) -> Transacao {
    Transacao {
        id: id.to_string(),
        dados: dados.to_vec(),
        estado_anterior: vec![1, 2, 3],
        estado_final: vec![4, 5, 6],
        timestamp: instante(),
        nonce: 7,
        assinatura: vec![9],
    }
}

fn bloco_de(txs: Vec<Transacao>, dificuldade: u32) -> Bloco {
    Bloco::new(3, vec![7u8; 32], txs, "minerador".to_string(), dificuldade, instante()).unwrap()
}

#[test]
fn genesis_tem_os_campos_fixos() {
    let g = Bloco::genesis(instante()).unwrap();
    assert_eq!(g.numero, 0);
    assert_eq!(g.hash_anterior, vec![0u8; 32]);
    assert_eq!(g.merkle_root, vec![0u8; 32]);
    assert_eq!(g.minerador_id, "genesis");
    assert_eq!(g.dificuldade, 1);
    assert_eq!(g.timestamp, instante());
    assert!(g.transacoes.is_empty());
    assert!(g.validar_estrutura());
    assert!(g.validar_dificuldade());
    assert_eq!(g.hash_bloco[0] >> 4, 0);
}

#[test]
fn genesis_sem_texto_falha() {
    assert!(matches!(
        Bloco::genesis(Instante::new(i64::MAX, 0)),
        Err(Erro::TimestampSemTexto)
    ));
}

#[test]
fn hash_sha256_de_vetores_conhecidos() {
    assert_eq!(
        calcular_hash(b""),
        hex::decode("e3b0c44298fc1c149afbf4c8996fb92427ae41e4649b934ca495991b7852b855").unwrap()
    );
    assert_eq!(
        calcular_hash(b"abc"),
        hex::decode("ba7816bf8f01cfea414140de5dae2223b00361a396177a9cb410ff61f20015ad").unwrap()
    );
}

#[test]
fn hash_do_bloco_e_do_cabecalho_canonico() {
    let b = bloco_de(vec![transacao("t1", b"hello")], 2);
    let mut canonico = Vec::new();
    escrever_u64(&mut canonico, 3);
    escrever_bytes(&mut canonico, &[7u8; 32]);
    escrever_bytes(&mut canonico, &b.merkle_root);
    escrever_bytes(&mut canonico, b"2023-11-14T22:13:20Z");
    escrever_u64(&mut canonico, 0);
    escrever_u32(&mut canonico, 2);
    assert_eq!(b.cabecalho().canonico().unwrap(), canonico);
    assert_eq!(b.hash_bloco, calcular_hash(&canonico));
    assert_eq!(b.calcular_hash().unwrap(), b.hash_bloco);
}

#[test]
fn canonico_da_transacao_em_ordem_declarada() {
    let tx = transacao("t1", b"hello");
    let mut esperado = Vec::new();
    escrever_texto(&mut esperado, "t1");
    escrever_bytes(&mut esperado, b"hello");
    escrever_bytes(&mut esperado, &[1, 2, 3]);
    escrever_bytes(&mut esperado, &[4, 5, 6]);
    escrever_bytes(&mut esperado, b"2023-11-14T22:13:20Z");
    escrever_u64(&mut esperado, 7);
    escrever_bytes(&mut esperado, &[9]);
    assert_eq!(tx.canonico().unwrap(), esperado);
    assert_eq!(tx.calcular_hash().unwrap(), calcular_hash(&esperado));
}

#[test]
fn assinatura_do_minerador_e_hash_do_bloco_com_id() {
    let b = bloco_de(vec![], 0);
    assert_eq!(
        b.assinatura_minerador,
        calcular_hash(&concatenar(&b.hash_bloco, b"minerador"))
    );
    assert_eq!(b.assinar_bloco(), b.assinatura_minerador);
}

#[test]
fn merkle_sem_transacoes_e_zero() {
    assert_eq!(Bloco::calcular_merkle_root(&[]).unwrap(), vec![0u8; 32]);
}

#[test]
fn merkle_de_uma_transacao_e_a_folha() {
    let tx = transacao("t1", b"hello");
    assert_eq!(
        Bloco::calcular_merkle_root(&[tx.duplicar()]).unwrap(),
        tx.calcular_hash().unwrap()
    );
}

#[test]
fn merkle_de_duas_e_de_tres_transacoes() {
    let a = transacao("a", b"1");
    let b = transacao("b", b"2");
    let c = transacao("c", b"3");
    let (la, lb, lc) = (
        a.calcular_hash().unwrap(),
        b.calcular_hash().unwrap(),
        c.calcular_hash().unwrap(),
    );
    let ab = calcular_hash(&concatenar(&la, &lb));
    assert_eq!(Bloco::calcular_merkle_root(&[a.duplicar(), b.duplicar()]).unwrap(), ab);
    // The unpaired third leaf is hashed with itself.
    let cc = calcular_hash(&concatenar(&lc, &lc));
    assert_eq!(
        Bloco::calcular_merkle_root(&[a, b, c]).unwrap(),
        calcular_hash(&concatenar(&ab, &cc))
    );
}

#[test]
fn merkle_falha_sem_texto() {
    let mut tx = transacao("a", b"1");
    tx.timestamp = Instante::new(i64::MAX, 0);
    assert!(matches!(
        Bloco::calcular_merkle_root(&[tx.duplicar()]),
        Err(Erro::TimestampSemTexto)
    ));
    assert!(matches!(
        Bloco::new(1, vec![0; 32], vec![tx], "m".to_string(), 0, instante()),
        Err(Erro::TimestampSemTexto)
    ));
}

#[test]
fn estrutura_acusa_cada_campo_adulterado() {
    let b = bloco_de(vec![transacao("t1", b"hello")], 0);
    assert!(b.validar_estrutura());
    let mut x = b.duplicar();
    x.nonce = 1;
    assert!(!x.validar_estrutura());
    let mut x = b.duplicar();
    x.merkle_root[0] ^= 1;
    assert!(!x.validar_estrutura());
    let mut x = b.duplicar();
    x.transacoes[0].dados = b"hellp".to_vec();
    assert!(!x.validar_estrutura());
    let mut x = b.duplicar();
    x.assinatura_minerador[31] ^= 1;
    assert!(!x.validar_estrutura());
    let mut x = b.duplicar();
    x.minerador_id = "outro".to_string();
    assert!(!x.validar_estrutura());
    let mut x = b.duplicar();
    x.timestamp = Instante::new(i64::MAX, 0);
    assert!(!x.validar_estrutura());
}

#[test]
fn dificuldade_conta_zeros_em_hexadecimal() {
    let mut b = bloco_de(vec![], 0);
    b.hash_bloco = vec![0xFF; 32];
    assert!(b.validar_dificuldade());
    b.dificuldade = 1;
    assert!(!b.validar_dificuldade());
    b.hash_bloco[0] = 0x0F;
    assert!(b.validar_dificuldade());
    b.dificuldade = 2;
    assert!(!b.validar_dificuldade());
    b.hash_bloco[0] = 0x00;
    assert!(b.validar_dificuldade());
    b.dificuldade = 3;
    assert!(!b.validar_dificuldade());
    b.hash_bloco[1] = 0x0A;
    assert!(b.validar_dificuldade());
    b.hash_bloco = vec![0; 32];
    b.dificuldade = 64;
    assert!(b.validar_dificuldade());
    b.dificuldade = 65;
    assert!(!b.validar_dificuldade());
    b.hash_bloco = vec![];
    b.dificuldade = 0;
    assert!(b.validar_dificuldade());
}

#[test]
fn minerar_para_no_primeiro_nonce_que_serve() {
    let mut b = bloco_de(vec![transacao("t1", b"hello")], 1);
    let base = b.duplicar();
    assert!(b.minerar(1000).unwrap());
    assert!(b.validar_dificuldade());
    assert!(b.validar_estrutura());
    assert_eq!(b.hash_bloco[0] >> 4, 0);
    for n in 0..b.nonce {
        let mut t = base.duplicar();
        t.nonce = n;
        t.hash_bloco = t.calcular_hash().unwrap();
        assert!(!t.validar_dificuldade());
    }
}

#[test]
fn minerar_sem_tentativas_nao_muda_nada() {
    let mut b = bloco_de(vec![], 1);
    let antes = b.duplicar();
    assert_eq!(b.minerar(0), Ok(false));
    assert_eq!(b.nonce, antes.nonce);
    assert_eq!(b.hash_bloco, antes.hash_bloco);
    assert_eq!(b.assinatura_minerador, antes.assinatura_minerador);
}

#[test]
fn minerar_que_falha_nao_toca_na_assinatura() {
    let mut b = bloco_de(vec![], 64);
    let antes = b.duplicar();
    assert_eq!(b.minerar(3), Ok(false));
    assert_eq!(b.nonce, 2);
    assert_eq!(b.assinatura_minerador, antes.assinatura_minerador);
    assert_eq!(b.hash_bloco, b.calcular_hash().unwrap());
    assert!(!b.validar_estrutura());
}

#[test]
fn minerar_sem_texto_falha() {
    let mut b = bloco_de(vec![], 1);
    b.timestamp = Instante::new(i64::MAX, 0);
    b.nonce = 9;
    assert_eq!(b.minerar(5), Err(Erro::TimestampSemTexto));
    assert_eq!(b.nonce, 0);
}

#[test]
fn ida_e_volta_binaria() {
    let mut b = bloco_de(vec![transacao("t1", b"hello"), transacao("t2", b"world")], 1);
    assert!(b.minerar(1000).unwrap());
    let bytes = b.serializar_binario().unwrap();
    // The frame begins with the length of the payload.
    let n = u32::from_le_bytes([bytes[0], bytes[1], bytes[2], bytes[3]]) as usize;
    assert_eq!(n, nimbos::blockchain::formato::escrever_bloco(&b).len());
    let c = Bloco::deserializar_binario(&bytes).unwrap();
    assert_eq!(c.numero, b.numero);
    assert_eq!(c.hash_anterior, b.hash_anterior);
    assert_eq!(c.merkle_root, b.merkle_root);
    assert_eq!(c.timestamp, b.timestamp);
    assert_eq!(c.nonce, b.nonce);
    assert_eq!(c.hash_bloco, b.hash_bloco);
    assert_eq!(c.assinatura_minerador, b.assinatura_minerador);
    assert_eq!(c.minerador_id, b.minerador_id);
    assert_eq!(c.dificuldade, b.dificuldade);
    assert_eq!(c.transacoes.len(), 2);
    for i in 0..2 {
        assert_eq!(c.transacoes[i].id, b.transacoes[i].id);
        assert_eq!(c.transacoes[i].dados, b.transacoes[i].dados);
        assert_eq!(c.transacoes[i].estado_anterior, b.transacoes[i].estado_anterior);
        assert_eq!(c.transacoes[i].estado_final, b.transacoes[i].estado_final);
        assert_eq!(c.transacoes[i].timestamp, b.transacoes[i].timestamp);
        assert_eq!(c.transacoes[i].nonce, b.transacoes[i].nonce);
        assert_eq!(c.transacoes[i].assinatura, b.transacoes[i].assinatura);
    }
    assert!(c.validar_estrutura());
    assert!(c.validar_dificuldade());
}

#[test]
fn quadro_comprime_carga_repetitiva() {
    let b = bloco_de(vec![transacao("t1", &vec![0x55u8; 10_000])], 0);
    let carga = nimbos::blockchain::formato::escrever_bloco(&b);
    let quadro = b.serializar_binario().unwrap();
    assert!(quadro.len() < carga.len() / 2);
    assert_ne!(quadro, carga);
}

#[test]
fn bloco_grande_demais_nao_tem_quadro() {
    use_limites();
    // The layout of a block holds every payload and some more.
    let b = bloco_de(vec![transacao("t1", &vec![0u8; 15_000_000])], 0);
    assert_eq!(b.serializar_binario(), Err(Erro::BlocoGrandeDemais));
    let b = bloco_de(vec![transacao("t1", &vec![7u8; 14_000_000])], 0);
    let quadro = b.serializar_binario().unwrap();
    assert_eq!(Bloco::deserializar_binario(&quadro).unwrap().transacoes[0].dados.len(), 14_000_000);
}

fn use_limites() {
    assert_eq!(nimbos::blockchain::formato::CARGA_MAXIMA, 15_000_000);
    assert_eq!(nimbos::blockchain::formato::QUADRO_MAXIMO, 16_800_000);
}

#[test]
fn quadro_longo_demais_e_recusado_sem_expandir() {
    // A length token and a run of 0xFF bytes that would overflow the
    // expander's counter: refused by its length alone.
    let mut quadro = vec![0u8, 0, 1, 0, 0xF0];
    quadro.resize(5 + 16_843_010, 0xFF);
    assert!(!quadro_e_aceito(&quadro));
    assert!(matches!(Bloco::deserializar_binario(&quadro), Err(Erro::Decodificacao)));
    // The same run below the limit is expanded and found malformed.
    quadro.truncate(16_800_000);
    assert!(quadro_e_aceito(&quadro));
    assert!(matches!(Bloco::deserializar_binario(&quadro), Err(Erro::Decodificacao)));
}

#[test]
fn quadro_que_declara_demais_e_recusado_sem_expandir() {
    // Four bytes that ask for a buffer of four gigabytes.
    assert!(!quadro_e_aceito(&[0xFF, 0xFF, 0xFF, 0xFF, 0x00]));
    assert!(matches!(
        Bloco::deserializar_binario(&[0xFF, 0xFF, 0xFF, 0xFF, 0x00]),
        Err(Erro::Decodificacao)
    ));
    // 15,000,000 is 0x00E4E1C0; one more is refused.
    assert!(quadro_e_aceito(&[0xC0, 0xE1, 0xE4, 0x00]));
    assert!(!quadro_e_aceito(&[0xC1, 0xE1, 0xE4, 0x00]));
    // A frame too short to declare anything.
    assert!(!quadro_e_aceito(&[0, 0, 0]));
    assert!(!quadro_e_aceito(&[]));
    // The frame of a block declares the length of its layout.
    let b = bloco_de(vec![transacao("t1", b"hello")], 0);
    let carga = nimbos::blockchain::formato::escrever_bloco(&b);
    let quadro = b.serializar_binario().unwrap();
    assert!(quadro_e_aceito(&quadro));
    assert_eq!(quadro[..4], (carga.len() as u32).to_le_bytes());
    assert_eq!(lz4_flex::decompress_size_prepended(&quadro).unwrap(), carga);
}

#[test]
fn bytes_que_nao_sao_bloco_nao_decodificam() {
    let b = bloco_de(vec![transacao("t1", b"hello")], 0);
    assert!(matches!(Bloco::deserializar_binario(&[]), Err(Erro::Decodificacao)));
    assert!(matches!(Bloco::deserializar_binario(&[1, 2, 3]), Err(Erro::Decodificacao)));
    // A payload that is not framed does not expand.
    let carga = nimbos::blockchain::formato::escrever_bloco(&b);
    assert!(matches!(Bloco::deserializar_binario(&carga), Err(Erro::Decodificacao)));
    // A payload with a byte behind the block is refused.
    let mut longa = carga.clone();
    longa.push(0);
    assert!(nimbos::blockchain::formato::ler_bloco_de(&longa).is_none());
    assert!(nimbos::blockchain::formato::ler_bloco_de(&carga[..carga.len() - 1]).is_none());
    assert!(nimbos::blockchain::formato::ler_bloco_de(&carga).is_some());
}
