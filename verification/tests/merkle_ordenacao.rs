use nimbos::consenso::merkle::arvore::ArvoreMerkle;
use nimbos::consenso::merkle::camada::CamadaMerkle;
use nimbos::consenso::merkle::prova::GeradorProva;
use nimbos::consenso::ordenacao::camada::CamadaOrdenacao;
use nimbos::consenso::ordenacao::gerador_fila::GeradorFila;
use nimbos::consenso::ordenacao::lexico::lex_menor_ou_igual;
use nimbos::consenso::ordenacao::seed_global::SeedGlobalManager;
use nimbos::consenso::tipos::{
    calcular_hash, calcular_position_hash, concatenar, FilaOrdenada, No, ProvaInclusao,
};
use nimbos::erro::Erro;
use nimbos::tempo::Instante;

fn no(id: &str, pk: &[u8]) -> No {
    No { id: id.to_string(), chave_publica: pk.to_vec(), endereco: "e".to_string(), ativo: true }
}

fn nos(ids: &[&str]) -> Vec<No> {
    ids.iter().map(|i| no(i, i.as_bytes())).collect()
}

fn par(a: &[u8], b: &[u8]) -> Vec<u8> {
    calcular_hash(&concatenar(a, b))
}

#[test]
fn arvore_sem_nos_falha() {
    assert!(matches!(ArvoreMerkle::construir(&[]), Err(Erro::ListaDeNosVazia)));
}

#[test]
fn arvore_de_um_no_tem_a_folha_como_raiz() {
    let a = ArvoreMerkle::construir(&nos(&["n1"])).unwrap();
    assert_eq!(
        a.obter_root(),
        hex::decode("676b8bb84ce7267dd520deca4811c8f10a53e636352f06987f42fe425acedd80").unwrap()
    );
    assert!(a.obter_caminho_prova(0).is_empty());
}

#[test]
fn arvore_de_dois_e_de_tres_nos() {
    let (l1, l2, l3) = (calcular_hash(b"n1"), calcular_hash(b"n2"), calcular_hash(b"n3"));
    let a = ArvoreMerkle::construir(&nos(&["n1", "n2"])).unwrap();
    assert_eq!(a.obter_root(), par(&l1, &l2));
    // The unpaired third leaf is carried up unchanged.
    let a = ArvoreMerkle::construir(&nos(&["n1", "n2", "n3"])).unwrap();
    assert_eq!(a.obter_root(), par(&par(&l1, &l2), &l3));
    assert_eq!(a.obter_caminho_prova(0), vec![l2.clone(), l3.clone()]);
    assert_eq!(a.obter_caminho_prova(1), vec![l1.clone(), l3.clone()]);
    // The tail has no sibling at the level of the leaves.
    assert_eq!(a.obter_caminho_prova(2), vec![par(&l1, &l2)]);
}

#[test]
fn posicao_do_no_na_arvore() {
    let a = ArvoreMerkle::construir(&nos(&["a", "b", "c", "b"])).unwrap();
    assert_eq!(a.obter_posicao_no("a"), Some(0));
    assert_eq!(a.obter_posicao_no("c"), Some(2));
    // An id that occurs twice is found at its last place.
    assert_eq!(a.obter_posicao_no("b"), Some(3));
    assert_eq!(a.obter_posicao_no("z"), None);
}

#[test]
fn provas_de_quatro_nos_conferem() {
    let lista = nos(&["a", "b", "c", "d"]);
    let a = ArvoreMerkle::construir(&lista).unwrap();
    let g = GeradorProva::new();
    for (i, n) in lista.iter().enumerate() {
        let p = g.gerar_prova(&a, &n.id).unwrap();
        assert_eq!(p.posicao, i);
        assert_eq!(p.merkle_proof.len(), 2);
        assert_eq!(p.merkle_root, a.obter_root());
        assert!(g.verificar_prova(&a, &p, &n.id));
        // The proof of one node does not verify another.
        assert!(!g.verificar_prova(&a, &p, "z"));
    }
    assert!(g.gerar_prova(&a, "z").is_none());
}

#[test]
fn prova_adulterada_nao_confere() {
    let a = ArvoreMerkle::construir(&nos(&["a", "b", "c", "d"])).unwrap();
    let g = GeradorProva::new();
    let p = g.gerar_prova(&a, "c").unwrap();
    let mut x = ProvaInclusao {
        merkle_proof: p.merkle_proof.clone(),
        posicao: p.posicao,
        merkle_root: p.merkle_root.clone(),
    };
    x.posicao = 3;
    assert!(!g.verificar_prova(&a, &x, "c"));
    x.posicao = 2;
    x.merkle_proof[0][0] ^= 1;
    assert!(!g.verificar_prova(&a, &x, "c"));
    x.merkle_proof[0][0] ^= 1;
    x.merkle_root[0] ^= 1;
    assert!(!g.verificar_prova(&a, &x, "c"));
    // A proof against another tree's root.
    let outra = ArvoreMerkle::construir(&nos(&["a", "b", "c", "e"])).unwrap();
    assert!(!g.verificar_prova(&outra, &p, "c"));
}

#[test]
fn prova_da_cauda_sem_par_confere() {
    // The tail of a level has no sibling there: its path skips that level,
    // and the verifier carries it up unchanged.
    let a = ArvoreMerkle::construir(&nos(&["a", "b", "c"])).unwrap();
    let g = GeradorProva::new();
    let p = g.gerar_prova(&a, "c").unwrap();
    assert_eq!(p.posicao, 2);
    assert_eq!(p.merkle_proof.len(), 1);
    assert!(g.verificar_prova(&a, &p, "c"));
    let p = g.gerar_prova(&a, "a").unwrap();
    assert!(g.verificar_prova(&a, &p, "a"));
    // Five leaves: the tail is carried up twice and has one sibling.
    let a = ArvoreMerkle::construir(&nos(&["a", "b", "c", "d", "e"])).unwrap();
    let p = g.gerar_prova(&a, "e").unwrap();
    assert_eq!(p.posicao, 4);
    assert_eq!(p.merkle_proof.len(), 1);
    assert!(g.verificar_prova(&a, &p, "e"));
    assert!(!g.verificar_prova(&a, &p, "d"));
}

#[test]
fn toda_prova_gerada_confere() {
    let g = GeradorProva::new();
    let todos = ["n0", "n1", "n2", "n3", "n4", "n5", "n6", "n7", "n8", "n9", "n10", "n11", "n12"];
    for n in 1..=todos.len() {
        let lista = nos(&todos[..n]);
        let a = ArvoreMerkle::construir(&lista).unwrap();
        assert_eq!(a.numero_de_folhas(), n);
        for (i, no) in lista.iter().enumerate() {
            let p = g.gerar_prova(&a, &no.id).unwrap();
            assert_eq!(p.posicao, i);
            assert!(g.verificar_prova(&a, &p, &no.id));
        }
    }
}

#[test]
fn prova_de_comprimento_errado_e_recusada() {
    let a = ArvoreMerkle::construir(&nos(&["a", "b", "c"])).unwrap();
    let g = GeradorProva::new();
    let p = g.gerar_prova(&a, "a").unwrap();
    let copia = |caminho: Vec<Vec<u8>>, posicao: usize| ProvaInclusao {
        merkle_proof: caminho,
        posicao,
        merkle_root: p.merkle_root.clone(),
    };
    let mut longo = p.merkle_proof.clone();
    longo.push(vec![0u8; 32]);
    assert!(!g.verificar_prova(&a, &copia(longo, 0), "a"));
    assert!(!g.verificar_prova(&a, &copia(p.merkle_proof[..1].to_vec(), 0), "a"));
    assert!(!g.verificar_prova(&a, &copia(vec![], 0), "a"));
    // A position that is no leaf's.
    assert!(!g.verificar_prova(&a, &copia(p.merkle_proof.clone(), 3), "a"));
    // One leaf: the empty path verifies, any other does not.
    let um = ArvoreMerkle::construir(&nos(&["a"])).unwrap();
    let q = g.gerar_prova(&um, "a").unwrap();
    assert!(q.merkle_proof.is_empty());
    assert!(g.verificar_prova(&um, &q, "a"));
    let r = ProvaInclusao {
        merkle_proof: vec![vec![0u8; 32]],
        posicao: 0,
        merkle_root: q.merkle_root.clone(),
    };
    assert!(!g.verificar_prova(&um, &r, "a"));
}

#[test]
fn camada_merkle_guarda_a_arvore() {
    let mut c = CamadaMerkle::new();
    assert!(c.gerar_prova_inclusao("a").is_none());
    let fila = FilaOrdenada {
        nos: nos(&["a", "b"]),
        seed_global: vec![1],
        timestamp: Instante::new(0, 0),
    };
    let raiz = c.gerar_arvore(&fila).unwrap();
    assert_eq!(raiz, par(&calcular_hash(b"a"), &calcular_hash(b"b")));
    let p = c.gerar_prova_inclusao("b").unwrap();
    assert!(c.verificar_prova(&p, "b"));
    assert!(!c.verificar_prova(&p, "a"));
    let vazia = FilaOrdenada { nos: vec![], seed_global: vec![], timestamp: Instante::new(0, 0) };
    assert!(matches!(c.gerar_arvore(&vazia), Err(Erro::ListaDeNosVazia)));
    assert!(c.verificar_prova(&p, "b"));
}

#[test]
fn ordem_lexicografica_de_bytes() {
    assert!(lex_menor_ou_igual(b"", b""));
    assert!(lex_menor_ou_igual(b"", b"a"));
    assert!(!lex_menor_ou_igual(b"a", b""));
    assert!(lex_menor_ou_igual(b"ab", b"ab"));
    assert!(lex_menor_ou_igual(b"ab", b"abc"));
    assert!(!lex_menor_ou_igual(b"abc", b"ab"));
    assert!(lex_menor_ou_igual(b"ab", b"b"));
    assert!(!lex_menor_ou_igual(b"b", b"ab"));
    assert!(lex_menor_ou_igual(&[0x7F], &[0x80]));
    assert!(!lex_menor_ou_igual(&[0xFF], &[0x00, 0xFF]));
}

#[test]
fn assento_e_hash_da_chave_com_a_seed() {
    assert_eq!(
        calcular_position_hash(b"A", b"S"),
        hex::decode("de148153b07d429235e6324fa7eff44d0e873484cafdb9742080213b1d340545").unwrap()
    );
}

fn ordem(entrada: Vec<No>, seed: &[u8]) -> Vec<String> {
    GeradorFila::new()
        .gerar_fila_ordenada(entrada, seed.to_vec(), Instante::new(9, 0))
        .unwrap()
        .nos
        .into_iter()
        .map(|n| n.id)
        .collect()
}

#[test]
fn fila_ordenada_e_deterministica() {
    let abc = || vec![no("a", b"A"), no("b", b"B"), no("c", b"C")];
    // H(B‖S) = 19.., H(C‖S) = 3a.., H(A‖S) = de..
    assert_eq!(ordem(abc(), b"S"), vec!["b", "c", "a"]);
    assert_eq!(ordem(abc(), b"S"), vec!["b", "c", "a"]);
    let mut p = abc();
    p.reverse();
    assert_eq!(ordem(p, b"S"), vec!["b", "c", "a"]);
    let mut p = abc();
    p.swap(0, 1);
    assert_eq!(ordem(p, b"S"), vec!["b", "c", "a"]);
    assert_eq!(ordem(vec![], b"S"), Vec::<String>::new());
}

#[test]
fn fila_ordenada_guarda_seed_e_instante() {
    let f = GeradorFila::new()
        .gerar_fila_ordenada(vec![no("a", b"A")], b"S".to_vec(), Instante::new(9, 3))
        .unwrap();
    assert_eq!(f.seed_global, b"S".to_vec());
    assert_eq!(f.timestamp, Instante::new(9, 3));
    assert_eq!(f.nos[0].chave_publica, b"A".to_vec());
    assert_eq!(f.nos[0].endereco, "e");
}

#[test]
fn empate_de_assento_decide_pelo_id() {
    let entrada = vec![no("n2", b"K"), no("n10", b"K"), no("n1", b"K")];
    assert_eq!(ordem(entrada, b"S"), vec!["n1", "n10", "n2"]);
}

#[test]
fn nos_de_mesmo_id_e_assento_ficam_na_ordem_dada() {
    let gemeo = |endereco: &str| No {
        id: "n".to_string(),
        chave_publica: b"K".to_vec(),
        endereco: endereco.to_string(),
        ativo: true,
    };
    let enderecos = |entrada: Vec<No>| -> Vec<String> {
        GeradorFila::new()
            .gerar_fila_ordenada(entrada, b"S".to_vec(), Instante::new(9, 0))
            .unwrap()
            .nos
            .into_iter()
            .map(|n| n.endereco)
            .collect()
    };
    let entrada = || vec![gemeo("x"), no("b", b"B"), gemeo("y"), gemeo("z")];
    // The three twins share one seat digest and one id.
    let primeira = enderecos(entrada());
    assert_eq!(primeira, enderecos(entrada()));
    let gemeos: Vec<String> = primeira.into_iter().filter(|e| e != "e").collect();
    assert_eq!(gemeos, vec!["x", "y", "z"]);
    assert_eq!(
        enderecos(vec![gemeo("z"), gemeo("y"), gemeo("x")]),
        vec!["z", "y", "x"]
    );
}

#[test]
fn seed_global_tem_32_bytes_e_se_renova() {
    let mut s = SeedGlobalManager::new();
    assert_eq!(s.obter_seed_atual().len(), 32);
    let novo = s.gerar_novo_seed();
    assert_eq!(novo.len(), 32);
    assert_eq!(s.obter_seed_atual(), novo);
    s.atualizar_seed(b"S".to_vec());
    assert_eq!(s.obter_seed_atual(), b"S".to_vec());
    // Two draws of 32 bytes differ.
    assert_ne!(s.gerar_novo_seed(), s.gerar_novo_seed());
}

#[test]
fn camada_de_ordenacao_usa_a_seed_em_vigor() {
    let mut c = CamadaOrdenacao::new();
    assert!(c.obter_fila_atual().is_none());
    c.atualizar_seed(b"S".to_vec());
    let f = c
        .gerar_fila(vec![no("a", b"A"), no("b", b"B"), no("c", b"C")], Instante::new(1, 0))
        .unwrap();
    let ids: Vec<&str> = f.nos.iter().map(|n| n.id.as_str()).collect();
    assert_eq!(ids, vec!["b", "c", "a"]);
    assert_eq!(f.seed_global, b"S".to_vec());
    let g = c.obter_fila_atual().unwrap();
    assert_eq!(g.nos.len(), 3);
    assert_eq!(g.nos[0].id, "b");
}
