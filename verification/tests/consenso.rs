use nimbos::consenso::processamento::camada::CamadaProcessamento;
use nimbos::consenso::processamento::estado::GerenciadorEstado;
use nimbos::consenso::processamento::processador::{
    validar_estrutura_transacao, ProcessadorTransacao,
};
use nimbos::consenso::processamento::rotacao::GerenciadorRotacao;
use nimbos::consenso::registro::camada::CamadaRegistro;
use nimbos::consenso::registro::commitment::GeradorCommitment;
use nimbos::consenso::registro::validador::ValidadorCommitment;
use nimbos::consenso::revelacao::camada::CamadaReveal;
use nimbos::consenso::revelacao::fila_aprovados::FilaAprovados;
use nimbos::consenso::revelacao::verificador::VerificadorReveal;
use nimbos::consenso::sistema::{FaseRodada, SistemaConsenso};
use nimbos::consenso::tipos::{
    bytes_iguais, calcular_commitment, calcular_hash, concatenar, Commitment, FilaOrdenada, No,
    Reveal, Transacao, ValidacaoConsenso,
};
use nimbos::consenso::validacao::camada::CamadaValidacao;
use nimbos::consenso::validacao::deteccao_maliciosos::{DetectorMaliciosos, TipoSuspeita};
use nimbos::consenso::validacao::quorum::{
    contar, indice_majoritario, minimo_de_votos, GerenciadorQuorum,
};
use nimbos::consenso::validacao::validador::ValidadorDistribuido;
use nimbos::erro::Erro;
use nimbos::tempo::Instante;

const AGORA: i64 = 1_700_000_000;

fn agora() -> Instante {
    Instante::new(AGORA, 0)
}

fn transacao(id: &str) -> Transacao {
    Transacao {
        id: id.to_string(),
        dados: b"dados".to_vec(),
        estado_anterior: b"estado".to_vec(),
        estado_final: b"fim".to_vec(),
        timestamp: agora(),
        nonce: 1,
        assinatura: b"cliente".to_vec(),
    }
}

fn voto(validador: &str, tx: &[u8], cadeia: &[u8]) -> ValidacaoConsenso {
    let v = ValidadorDistribuido::com_id(validador.to_string());
    ValidacaoConsenso {
        hash_transacao: tx.to_vec(),
        hash_cadeia: cadeia.to_vec(),
        validador_id: validador.to_string(),
        assinatura: v.assinar_validacao(tx, cadeia),
        timestamp: agora(),
    }
}

fn hash(n: u8) -> Vec<u8> {
    vec![n; 32]
}

#[test]
fn commitment_e_hash_da_chave_com_o_nonce() {
    let pk = [0xAAu8; 32];
    let nonce = [0xBBu8; 32];
    let esperado =
        hex::decode("e2d80f78d79027556d6619a1400605abbdca6bb6eb24e0831e33ecd5466fa5f6").unwrap();
    assert_eq!(calcular_commitment(&pk, &nonce), esperado);
    let c = GeradorCommitment::criar_commitment(&pk, &nonce, "n1".to_string(), agora());
    assert_eq!(c.hash, esperado);
    assert_eq!(c.no_id, "n1");
    assert_eq!(c.timestamp, agora());
    assert_eq!(GeradorCommitment::gerar_nonce().len(), 32);
    assert_ne!(GeradorCommitment::gerar_nonce(), GeradorCommitment::gerar_nonce());
}

#[test]
fn reveal_so_confere_com_o_proprio_commitment() {
    let pk = vec![0xAAu8; 32];
    let nonce = vec![0xBBu8; 32];
    let c = GeradorCommitment::criar_commitment(&pk, &nonce, "n1".to_string(), agora());
    let v = VerificadorReveal::new();
    let r = |pk: &[u8], nonce: &[u8]| Reveal {
        chave_publica: pk.to_vec(),
        nonce: nonce.to_vec(),
        no_id: "n1".to_string(),
        timestamp: agora(),
    };
    assert!(v.verificar(&r(&pk, &nonce), &c));
    assert!(!v.verificar(&r(&nonce, &pk), &c));
    assert!(!v.verificar(&r(&pk, &[0xBC; 32]), &c));
    assert!(!v.verificar(&r(&pk[..31], &nonce), &c));
}

#[test]
fn commitment_valido_so_na_janela() {
    let v = ValidadorCommitment::new();
    let c = |hash: Vec<u8>, seg: i64, id: &str| Commitment {
        hash,
        timestamp: Instante::new(seg, 0),
        no_id: id.to_string(),
    };
    assert!(v.validar(&c(hash(1), AGORA, "n"), agora()));
    assert!(v.validar(&c(hash(1), AGORA - 300, "n"), agora()));
    assert!(!v.validar(&c(hash(1), AGORA - 301, "n"), agora()));
    assert!(v.validar(&c(hash(1), AGORA + 300, "n"), agora()));
    assert!(!v.validar(&c(hash(1), AGORA + 301, "n"), agora()));
    assert!(!v.validar(&c(vec![1; 31], AGORA, "n"), agora()));
    assert!(!v.validar(&c(vec![1; 33], AGORA, "n"), agora()));
    assert!(!v.validar(&c(hash(1), AGORA, ""), agora()));
}

#[test]
fn segundo_commitment_do_no_substitui_o_primeiro() {
    let mut r = CamadaRegistro::new();
    let c = |n: u8, id: &str| Commitment {
        hash: hash(n),
        timestamp: agora(),
        no_id: id.to_string(),
    };
    assert!(r.adicionar_commitment(c(1, "a"), agora()));
    assert!(r.adicionar_commitment(c(2, "b"), agora()));
    assert!(r.adicionar_commitment(c(3, "a"), agora()));
    assert!(!r.adicionar_commitment(c(4, ""), agora()));
    let todos = r.obter_commitments();
    assert_eq!(todos.len(), 2);
    assert_eq!(r.obter_commitment("a").unwrap().hash, hash(3));
    assert_eq!(r.obter_commitment("b").unwrap().hash, hash(2));
    assert!(r.obter_commitment("c").is_none());
    r.processar_commitments();
    r.limpar_commitments();
    assert!(r.obter_commitments().is_empty());
}

fn revelar(id: &str, pk: &[u8], nonce: &[u8]) -> Reveal {
    Reveal {
        chave_publica: pk.to_vec(),
        nonce: nonce.to_vec(),
        no_id: id.to_string(),
        timestamp: agora(),
    }
}

#[test]
fn reveal_aprova_so_quem_se_comprometeu() {
    let mut registro = CamadaRegistro::new();
    for (id, pk) in [("a", b"A"), ("b", b"B")] {
        assert!(registro.adicionar_commitment(
            GeradorCommitment::criar_commitment(pk, b"nonce", id.to_string(), agora()),
            agora()
        ));
    }
    let mut camada = CamadaReveal::new();
    // No commitment.
    assert_eq!(
        camada.diagnosticar(&revelar("c", b"C", b"nonce"), &registro),
        Some(Erro::CommitmentAusente)
    );
    assert!(!camada.adicionar_reveal(revelar("c", b"C", b"nonce"), &registro));
    // A reveal that does not open the commitment.
    assert_eq!(
        camada.diagnosticar(&revelar("a", b"A", b"outro"), &registro),
        Some(Erro::RevealInvalido)
    );
    assert!(!camada.adicionar_reveal(revelar("a", b"A", b"outro"), &registro));
    assert_eq!(camada.diagnosticar(&revelar("a", b"A", b"nonce"), &registro), None);
    assert!(camada.obter_nos_aprovados().is_empty());
    assert!(camada.adicionar_reveal(revelar("b", b"B", b"nonce"), &registro));
    assert!(camada.adicionar_reveal(revelar("a", b"A", b"nonce"), &registro));
    assert!(camada.adicionar_reveal(revelar("b", b"B", b"nonce"), &registro));
    assert_eq!(camada.obter_nos_aprovados(), vec!["b".to_string(), "a".to_string()]);
    let nos = camada.nos_aprovados();
    assert_eq!(nos.len(), 2);
    assert_eq!(nos[0].id, "b");
    assert_eq!(nos[0].chave_publica, b"B".to_vec());
    assert!(nos[0].ativo);
    camada.processar_reveals();
    camada.limpar();
    assert!(camada.obter_nos_aprovados().is_empty());
}

#[test]
fn fila_de_aprovados_nao_repete() {
    let mut f = FilaAprovados::new();
    f.adicionar_no_aprovado("x".to_string());
    f.adicionar_no_aprovado("y".to_string());
    f.adicionar_no_aprovado("x".to_string());
    assert_eq!(f.obter_nos_aprovados(), vec!["x".to_string(), "y".to_string()]);
    f.limpar();
    assert!(f.obter_nos_aprovados().is_empty());
}

#[test]
fn minimo_de_votos_arredonda_para_cima() {
    assert_eq!(minimo_de_votos(10, 70), 7);
    assert_eq!(minimo_de_votos(3, 70), 3);
    assert_eq!(minimo_de_votos(4, 50), 2);
    assert_eq!(minimo_de_votos(5, 50), 3);
    assert_eq!(minimo_de_votos(0, 70), 0);
    assert_eq!(minimo_de_votos(10, 0), 0);
    assert_eq!(minimo_de_votos(10, 100), 10);
    let mut q = GerenciadorQuorum::new(70);
    assert_eq!(q.obter_threshold(), 70);
    assert_eq!(q.calcular_minimo_necessario(), 7);
    q.atualizar_total_nos(21);
    assert_eq!(q.calcular_minimo_necessario(), 15);
}

#[test]
fn quorum_de_dez_validadores() {
    let q = GerenciadorQuorum::new(70);
    let votos = |bons: usize, maus: usize| {
        let mut v = Vec::new();
        for i in 0..bons {
            v.push(voto(&format!("b{}", i), &hash(1), &hash(2)));
        }
        for i in 0..maus {
            v.push(voto(&format!("m{}", i), &hash(3), &hash(4)));
        }
        v
    };
    // Seven for (X, Y), three for (X', Y'): agreement on (X, Y).
    let v = votos(7, 3);
    assert!(q.verificar_quorum(&v));
    assert_eq!(q.hash_cadeia_majoritario(&v), Some(hash(2)));
    // Six for (X, Y), four for (X', Y'): the count of seven is unmet.
    assert!(!q.verificar_quorum(&votos(6, 4)));
    assert!(q.verificar_consenso_hashes(&votos(6, 4)));
    assert!(!q.verificar_quorum(&votos(6, 0)));
    assert!(q.verificar_quorum(&votos(7, 0)));
    assert!(!q.verificar_quorum(&votos(4, 2)));
    // Ten votes, split evenly: no majority.
    assert!(!q.verificar_quorum(&votos(5, 5)));
    assert!(q.hash_cadeia_majoritario(&votos(5, 5)).is_none());
    assert!(!q.verificar_quorum(&[]));
    assert!(!q.verificar_consenso_hashes(&[]));
}

#[test]
fn maioria_exige_mais_da_metade_nos_dois_hashes() {
    let q = GerenciadorQuorum::new(0);
    // A majority of transaction hashes, none of chain hashes.
    let v =
        vec![voto("a", &hash(1), &hash(2)), voto("b", &hash(1), &hash(3)), voto("c", &hash(1), &hash(4))];
    assert!(!q.verificar_quorum(&v));
    let v =
        vec![voto("a", &hash(1), &hash(2)), voto("b", &hash(1), &hash(2)), voto("c", &hash(9), &hash(4))];
    assert!(q.verificar_quorum(&v));
    let todos = vec![hash(1), hash(2), hash(1), hash(1)];
    assert_eq!(contar(&todos, &hash(1)), 3);
    assert_eq!(contar(&todos, &hash(7)), 0);
    assert_eq!(indice_majoritario(&todos), Some(0));
    assert_eq!(indice_majoritario(&vec![hash(2), hash(1), hash(1)]), Some(1));
    assert_eq!(indice_majoritario(&vec![hash(2), hash(1)]), None);
}

#[test]
fn voto_do_validador_local() {
    let v = ValidadorDistribuido::new();
    let tx = transacao("t1");
    let anterior = hash(0);
    let voto = v.validar_transacao(&tx, &anterior, agora()).unwrap();
    let h = tx.calcular_hash().unwrap();
    assert_eq!(voto.hash_transacao, h);
    assert_eq!(voto.hash_cadeia, calcular_hash(&concatenar(&h, &anterior)));
    assert_eq!(voto.hash_cadeia, v.calcular_hash_cadeia(&h, &anterior));
    assert_eq!(voto.validador_id, "validador_local");
    assert_eq!(
        voto.assinatura,
        calcular_hash(&concatenar(&concatenar(&h, &voto.hash_cadeia), b"validador_local"))
    );
    assert_eq!(voto.timestamp, agora());
    assert!(v.verificar_validacao(&voto, agora()));
}

#[test]
fn voto_recusa_estado_vazio_e_transacao_sem_texto() {
    let v = ValidadorDistribuido::new();
    let mut tx = transacao("t1");
    tx.estado_anterior = vec![];
    assert!(matches!(v.validar_transacao(&tx, &hash(0), agora()), Err(Erro::TransacaoInvalida)));
    let mut tx = transacao("t1");
    tx.estado_final = vec![];
    assert!(matches!(v.validar_transacao(&tx, &hash(0), agora()), Err(Erro::TransacaoInvalida)));
    let mut tx = transacao("t1");
    tx.timestamp = Instante::new(i64::MAX, 0);
    assert!(matches!(v.validar_transacao(&tx, &hash(0), agora()), Err(Erro::TimestampSemTexto)));
}

#[test]
fn voto_invalido_e_recusado() {
    let v = ValidadorDistribuido::new();
    let bom = voto("x", &hash(1), &hash(2));
    assert!(v.verificar_validacao(&bom, agora()));
    let mut m = bom.duplicar();
    m.assinatura[0] ^= 1;
    assert!(!v.verificar_validacao(&m, agora()));
    let mut m = bom.duplicar();
    m.validador_id = "y".to_string();
    assert!(!v.verificar_validacao(&m, agora()));
    // Ten minutes from the clock is accepted, a second more is not.
    assert!(v.verificar_validacao(&bom, Instante::new(AGORA + 600, 0)));
    assert!(!v.verificar_validacao(&bom, Instante::new(AGORA + 601, 0)));
    assert!(v.verificar_validacao(&bom, Instante::new(AGORA - 600, 0)));
    assert!(!v.verificar_validacao(&bom, Instante::new(AGORA - 601, 0)));
    let curto = voto("x", &[1; 31], &hash(2));
    assert!(!v.verificar_validacao(&curto, agora()));
    let curto = voto("x", &hash(1), &[2; 33]);
    assert!(!v.verificar_validacao(&curto, agora()));
}

#[test]
fn detector_acusa_na_terceira_divergencia() {
    let mut d = DetectorMaliciosos::new();
    let rodada = || {
        vec![
            voto("a", &hash(1), &hash(2)),
            voto("m", &hash(9), &hash(2)),
            voto("b", &hash(1), &hash(2)),
            voto("m", &hash(8), &hash(2)),
            voto("c", &hash(1), &hash(2)),
        ]
    };
    assert!(d.analisar_validacoes(&rodada(), agora()).is_empty());
    assert!(d.analisar_validacoes(&rodada(), agora()).is_empty());
    assert_eq!(d.analisar_validacoes(&rodada(), agora()), vec!["m".to_string()]);
    assert_eq!(d.analisar_validacoes(&rodada(), agora()), vec!["m".to_string()]);
    let h = d.obter_historico_suspeitas();
    // One suspicion per diverging voter and round.
    assert_eq!(h.len(), 4);
    assert_eq!(h[0].no_id, "m");
    assert_eq!(h[0].tipo_suspeita, TipoSuspeita::HashInconsistente);
    assert_eq!(h[0].timestamp, agora());
    assert_eq!(h[0].detalhes, "Hash inconsistente com maioria");
    d.limpar_historico();
    assert!(d.obter_historico_suspeitas().is_empty());
    assert!(d.analisar_validacoes(&rodada(), agora()).is_empty());
    assert!(d.analisar_validacoes(&[], agora()).is_empty());
}

#[test]
fn detector_toma_o_maior_grupo_e_o_primeiro_no_empate() {
    let mut d = DetectorMaliciosos::new();
    let v = vec![
        voto("a", &hash(1), &hash(2)),
        voto("b", &hash(7), &hash(2)),
        voto("c", &hash(7), &hash(2)),
        voto("d", &hash(1), &hash(2)),
        voto("e", &hash(3), &hash(2)),
    ];
    d.analisar_validacoes(&v, agora());
    let ids: Vec<String> = d.obter_historico_suspeitas().into_iter().map(|s| s.no_id).collect();
    assert_eq!(ids, vec!["b".to_string(), "c".to_string(), "e".to_string()]);
}

#[test]
fn estrutura_da_transacao() {
    assert!(validar_estrutura_transacao(&transacao("t"), agora()));
    let mut t = transacao("");
    assert!(!validar_estrutura_transacao(&t, agora()));
    t = transacao("t");
    t.dados = vec![];
    assert!(!validar_estrutura_transacao(&t, agora()));
    t = transacao("t");
    t.assinatura = vec![];
    assert!(!validar_estrutura_transacao(&t, agora()));
    t = transacao("t");
    t.timestamp = Instante::new(AGORA + 300, 0);
    assert!(validar_estrutura_transacao(&t, agora()));
    t.timestamp = Instante::new(AGORA + 300, 1);
    assert!(!validar_estrutura_transacao(&t, agora()));
    t.timestamp = Instante::new(AGORA - 1_000_000, 0);
    assert!(validar_estrutura_transacao(&t, agora()));
}

#[test]
fn processador_aplica_e_assina() {
    let mut p = ProcessadorTransacao::new();
    assert_eq!(p.obter_total_transacoes(), 0);
    let mut tx = transacao("t1");
    tx.timestamp = Instante::new(AGORA - 50, 0);
    let depois = Instante::new(AGORA + 1, 0);
    let r = p.processar(&tx, "no-7", depois).unwrap();
    assert_eq!(r.id, "t1");
    assert_eq!(r.dados, tx.dados);
    assert_eq!(r.estado_anterior, tx.estado_anterior);
    assert_eq!(r.nonce, tx.nonce);
    assert_eq!(r.timestamp, depois);
    assert_eq!(
        r.estado_final,
        hex::decode("37e0ae4549de51f6053320176ee13fd9a7d246bb2e4157f2a2b72dddd3834ad7").unwrap()
    );
    assert_eq!(r.estado_final, p.calcular_novo_estado(b"estado", b"dados"));
    // The processor signs the applied transaction, which still carries the
    // signature of the client.
    let mut aplicada = tx.duplicar();
    aplicada.timestamp = depois;
    aplicada.estado_final = r.estado_final.clone();
    let esperada = calcular_hash(&concatenar(b"no-7", &aplicada.canonico().unwrap()));
    assert_eq!(r.assinatura, esperada);
    assert_eq!(p.assinar_transacao(&aplicada, "no-7").unwrap(), esperada);
    assert_eq!(p.obter_total_transacoes(), 1);
}

#[test]
fn processador_recusa_transacao_mal_formada() {
    let mut p = ProcessadorTransacao::new();
    assert!(matches!(p.processar(&transacao(""), "n", agora()), Err(Erro::TransacaoInvalida)));
    assert_eq!(p.obter_total_transacoes(), 0);
    let mut tx = transacao("t");
    tx.timestamp = Instante::new(i64::MIN, 0);
    assert!(matches!(
        p.processar(&tx, "n", Instante::new(i64::MAX, 0)),
        Err(Erro::TimestampSemTexto)
    ));
    assert_eq!(p.obter_total_transacoes(), 1);
}

#[test]
fn rotacao_completa_devolve_a_fila() {
    let mut r = GerenciadorRotacao::new();
    r.rotacionar_fila();
    assert!(r.obter_fila_atual().is_empty());
    assert!(r.obter_proximo_processador().is_none());
    let ids: Vec<String> = ["a", "b", "c", "d"].iter().map(|s| s.to_string()).collect();
    r.inicializar_fila(ids.clone());
    assert_eq!(r.obter_proximo_processador(), Some("a".to_string()));
    r.rotacionar_fila();
    assert_eq!(r.obter_fila_atual(), vec!["b", "c", "d", "a"]);
    assert_eq!(r.obter_proximo_processador(), Some("b".to_string()));
    for _ in 0..3 {
        r.rotacionar_fila();
    }
    assert_eq!(r.obter_fila_atual(), ids);
    assert_eq!(r.obter_historico(), ids);
    r.inicializar_fila(vec!["z".to_string()]);
    r.rotacionar_fila();
    assert_eq!(r.obter_fila_atual(), vec!["z"]);
    assert_eq!(r.obter_historico().len(), 5);
}

#[test]
fn gerenciador_de_estado_guarda_e_fotografa() {
    let mut g = GerenciadorEstado::new();
    assert!(g.obter_estado("t1").is_none());
    assert!(g.obter_ultimo_snapshot().is_none());
    assert!(g.validar_consistencia());
    g.atualizar_estado(&transacao("t1"), "p", hash(5));
    let e = g.obter_estado("t1").unwrap();
    assert_eq!(e.id, "t1");
    assert_eq!(e.estado_anterior, b"estado".to_vec());
    assert_eq!(e.estado_atual, b"fim".to_vec());
    assert_eq!(e.timestamp_processamento, agora());
    assert_eq!(e.processador_id, "p");
    assert_eq!(e.hash_cadeia, hash(5));
    g.criar_snapshot();
    g.atualizar_estado(&transacao("t2"), "q", vec![1, 2, 3]);
    assert!(!g.validar_consistencia());
    assert_eq!(g.obter_ultimo_snapshot().unwrap().len(), 1);
    g.atualizar_estado(&transacao("t2"), "q", hash(6));
    assert!(g.validar_consistencia());
    g.criar_snapshot();
    let s = g.obter_ultimo_snapshot().unwrap();
    assert_eq!(s.len(), 2);
    assert_eq!(s[1].hash_cadeia, hash(6));
}

fn fila(ids: &[&str]) -> FilaOrdenada {
    FilaOrdenada {
        nos: ids
            .iter()
            .map(|i| No {
                id: i.to_string(),
                chave_publica: i.as_bytes().to_vec(),
                endereco: String::new(),
                ativo: true,
            })
            .collect(),
        seed_global: vec![],
        timestamp: agora(),
    }
}

#[test]
fn camada_de_processamento_publica_sem_confirmar() {
    let mut c = CamadaProcessamento::new();
    assert_eq!(c.obter_hash_cadeia_anterior(), vec![0u8; 32]);
    assert!(matches!(c.processar_transacoes(&fila(&[]), &transacao("t"), agora()), Ok(None)));
    c.inicializar_fila(vec!["p".to_string(), "v".to_string()]);
    let p = c.processar_transacoes(&fila(&["p", "v"]), &transacao("t"), agora()).unwrap().unwrap();
    assert_eq!(p.processador_id, "p");
    assert_eq!(p.hash_transacao, p.transacao.calcular_hash().unwrap());
    assert_eq!(p.hash_cadeia, calcular_hash(&concatenar(&p.hash_transacao, &[0u8; 32])));
    // Nothing is committed yet.
    assert_eq!(c.obter_hash_cadeia_anterior(), vec![0u8; 32]);
    assert_eq!(c.obter_proximo_processador(), Some("p".to_string()));
    assert_eq!(c.obter_total_transacoes(), 1);
    c.confirmar_rodada(p.hash_cadeia.clone());
    assert_eq!(c.obter_hash_cadeia_anterior(), p.hash_cadeia);
    assert_eq!(c.obter_proximo_processador(), Some("v".to_string()));
    assert!(matches!(
        c.processar_transacoes(&fila(&["p"]), &transacao(""), agora()),
        Err(Erro::TransacaoInvalida)
    ));
}

#[test]
fn camada_de_validacao_junta_votos_por_transacao() {
    let mut c = CamadaValidacao::new();
    c.atualizar_total_nos(3);
    c.validar_consenso();
    let mut ruim = voto("a", &hash(1), &hash(2));
    ruim.assinatura = vec![0; 32];
    assert!(!c.adicionar_validacao("t", ruim, agora()));
    assert!(c.obter_validacoes("t").is_empty());
    assert!(!c.adicionar_validacao("t", voto("a", &hash(1), &hash(2)), agora()));
    assert!(!c.adicionar_validacao("t", voto("b", &hash(1), &hash(2)), agora()));
    assert!(!c.adicionar_validacao("u", voto("b", &hash(1), &hash(2)), agora()));
    assert!(!c.quorum_de("t"));
    // Three nodes at 70 % need three votes for one value.
    assert!(!c.adicionar_validacao("t", voto("c", &hash(9), &hash(2)), agora()));
    assert!(c.adicionar_validacao("t", voto("d", &hash(1), &hash(2)), agora()));
    assert!(c.quorum_de("t"));
    assert_eq!(c.obter_validacoes("t").len(), 4);
    assert_eq!(c.obter_validacoes("u").len(), 1);
    assert_eq!(c.hash_cadeia_majoritario("t"), Some(hash(2)));
    c.descartar_validacoes("t");
    assert!(c.obter_validacoes("t").is_empty());
    assert_eq!(c.obter_validacoes("u").len(), 1);
}

fn sistema_na_validacao(ids: &[&str]) -> (SistemaConsenso, Vec<u8>, Vec<u8>) {
    let mut s = SistemaConsenso::new();
    assert_eq!(s.obter_fase(), FaseRodada::Commitment);
    for id in ids {
        assert!(s.adicionar_commitment(
            GeradorCommitment::criar_commitment(id.as_bytes(), b"n", id.to_string(), agora()),
            agora()
        ));
    }
    // A reveal before its phase is dropped.
    assert!(!s.adicionar_reveal(revelar(ids[0], ids[0].as_bytes(), b"n")));
    assert!(s.fechar_janela());
    assert_eq!(s.obter_fase(), FaseRodada::Reveal);
    assert!(!s.adicionar_commitment(
        GeradorCommitment::criar_commitment(b"x", b"n", "x".to_string(), agora()),
        agora()
    ));
    for id in ids {
        assert!(s.adicionar_reveal(revelar(id, id.as_bytes(), b"n")));
    }
    assert!(!s.ordenar(agora()));
    assert!(s.fechar_janela());
    assert!(!s.fechar_janela());
    assert!(s.ordenar(agora()));
    assert_eq!(s.obter_fase(), FaseRodada::Merkle);
    assert!(s.ancorar().is_some());
    assert_eq!(s.obter_fase(), FaseRodada::Processamento);
    assert!(!s.concluir_rodada());
    let p = s.processar(&transacao("t1"), agora()).unwrap().unwrap();
    assert_eq!(s.obter_fase(), FaseRodada::Validacao);
    (s, p.hash_transacao, p.hash_cadeia)
}

#[test]
fn rodada_com_quorum_confirma_o_hash_da_cadeia() {
    let (mut s, tx, cadeia) = sistema_na_validacao(&["a", "b", "c"]);
    assert_eq!(cadeia, calcular_hash(&concatenar(&tx, &[0u8; 32])));
    assert!(!s.adicionar_validacao(voto("a", &tx, &cadeia), agora()));
    assert!(!s.adicionar_validacao(voto("b", &tx, &cadeia), agora()));
    assert!(!s.adicionar_validacao(voto("x", &[7; 32], &[8; 32]), agora()));
    assert!(s.adicionar_validacao(voto("c", &tx, &cadeia), agora()));
    assert_eq!(s.obter_hash_cadeia_anterior(), vec![0u8; 32]);
    assert!(s.concluir_rodada());
    assert_eq!(s.obter_hash_cadeia_anterior(), cadeia);
    assert_eq!(s.obter_fase(), FaseRodada::Commitment);
}

#[test]
fn rodada_sem_quorum_nao_muda_o_hash_da_cadeia() {
    let (mut s, tx, cadeia) = sistema_na_validacao(&["a", "b", "c"]);
    assert!(!s.adicionar_validacao(voto("a", &tx, &cadeia), agora()));
    assert!(!s.adicionar_validacao(voto("b", &tx, &cadeia), agora()));
    assert!(!s.concluir_rodada());
    assert_eq!(s.obter_hash_cadeia_anterior(), vec![0u8; 32]);
    assert_eq!(s.obter_fase(), FaseRodada::Commitment);
    // Votes outside the validation phase are dropped.
    assert!(!s.adicionar_validacao(voto("c", &tx, &cadeia), agora()));
    assert!(bytes_iguais(&s.obter_hash_cadeia_anterior(), &[0u8; 32]));
}

#[test]
fn motor_troca_a_seed_e_ancora_a_fila() {
    let mut s = SistemaConsenso::new();
    assert_eq!(s.obter_seed_atual().len(), 32);
    s.atualizar_seed(b"S".to_vec());
    assert_eq!(s.obter_seed_atual(), b"S".to_vec());
    for (id, pk) in [("a", b"A"), ("b", b"B"), ("c", b"C")] {
        assert!(s.adicionar_commitment(
            GeradorCommitment::criar_commitment(pk, b"n", id.to_string(), agora()),
            agora()
        ));
    }
    assert!(s.fechar_janela());
    for (id, pk) in [("a", b"A"), ("b", b"B"), ("c", b"C")] {
        assert!(s.adicionar_reveal(revelar(id, pk, b"n")));
    }
    assert!(s.fechar_janela());
    assert!(s.ordenar(agora()));
    // The queue under seed `S` is b, c, a; an unpaired third leaf is
    // carried up unchanged.
    let raiz = s.ancorar().unwrap();
    let (lb, lc, la) = (calcular_hash(b"b"), calcular_hash(b"c"), calcular_hash(b"a"));
    let esperada = calcular_hash(&concatenar(&calcular_hash(&concatenar(&lb, &lc)), &la));
    assert_eq!(raiz, esperada);
    let p = s.processar(&transacao("t9"), agora()).unwrap().unwrap();
    assert_eq!(p.processador_id, "b");
    assert_eq!(p.transacao.id, "t9");
}

#[test]
fn rodada_sem_aprovados_nao_processa() {
    let mut s = SistemaConsenso::new();
    assert!(s.fechar_janela());
    assert!(s.fechar_janela());
    assert!(s.ordenar(agora()));
    assert!(s.ancorar().is_none());
    assert!(matches!(s.processar(&transacao("t"), agora()), Ok(None)));
    assert_eq!(s.obter_fase(), FaseRodada::Validacao);
    assert!(!s.adicionar_validacao(voto("a", &hash(1), &hash(2)), agora()));
    assert!(!s.concluir_rodada());
    assert_eq!(s.obter_fase(), FaseRodada::Commitment);
}
