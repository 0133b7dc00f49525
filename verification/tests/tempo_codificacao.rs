use nimbos::codificacao::{
    escrever_bytes, escrever_instante, escrever_texto, escrever_u32, escrever_u64, ler_bytes_em,
    ler_instante_em, ler_texto_em, ler_u32_em, ler_u64_em, texto_de_bytes,
};
use nimbos::tempo::Instante;

#[test]
fn instante_ordem_por_segundos_e_nanos() {
    let a = Instante::new(10, 5);
    let b = Instante::new(10, 6);
    let c = Instante::new(11, 0);
    assert!(a.anterior_a(&b));
    assert!(b.anterior_a(&c));
    assert!(!b.anterior_a(&a));
    assert!(!a.anterior_a(&a));
    assert!(c.posterior_a(&a));
    assert!(!a.posterior_a(&a));
}

#[test]
fn instante_desloca_e_satura() {
    let a = Instante::new(100, 7);
    assert_eq!(a.mais_segundos(300), Instante::new(400, 7));
    assert_eq!(a.mais_segundos(-300), Instante::new(-200, 7));
    assert_eq!(a.menos_segundos(300), Instante::new(-200, 7));
    assert_eq!(Instante::new(i64::MAX - 1, 0).mais_segundos(5), Instante::new(i64::MAX, 0));
    assert_eq!(Instante::new(i64::MIN + 1, 0).menos_segundos(5), Instante::new(i64::MIN, 0));
    assert_eq!(Instante::new(0, 0).menos_segundos(i64::MIN), Instante::new(i64::MAX, 0));
}

#[test]
fn texto_iso8601_de_instantes_conhecidos() {
    assert_eq!(
        Instante::new(1_700_000_000, 0).para_iso8601().unwrap(),
        b"2023-11-14T22:13:20Z".to_vec()
    );
    assert_eq!(
        Instante::new(1_700_000_000, 500_000_000).para_iso8601().unwrap(),
        b"2023-11-14T22:13:20.500Z".to_vec()
    );
    assert_eq!(Instante::new(0, 1).para_iso8601().unwrap(), b"1970-01-01T00:00:00.000000001Z".to_vec());
}

#[test]
fn instante_fora_do_calendario_nao_tem_texto() {
    assert!(Instante::new(i64::MAX, 0).para_iso8601().is_none());
    assert!(Instante::new(0, 2_000_000_000).para_iso8601().is_none());
}

#[test]
fn inteiros_em_little_endian() {
    let mut saida = vec![0xEEu8];
    escrever_u64(&mut saida, 0x0102_0304_0506_0708);
    escrever_u32(&mut saida, 0x0A0B_0C0D);
    assert_eq!(
        saida,
        vec![0xEE, 8, 7, 6, 5, 4, 3, 2, 1, 0x0D, 0x0C, 0x0B, 0x0A]
    );
    assert_eq!(ler_u64_em(&saida, 1), Some((0x0102_0304_0506_0708, 9)));
    assert_eq!(ler_u32_em(&saida, 9), Some((0x0A0B_0C0D, 13)));
    assert_eq!(ler_u64_em(&saida, 6), None);
    assert_eq!(ler_u32_em(&saida, 10), None);
}

#[test]
fn bytes_com_prefixo_de_comprimento() {
    let mut saida = Vec::new();
    escrever_bytes(&mut saida, b"abc");
    assert_eq!(saida, vec![3, 0, 0, 0, 0, 0, 0, 0, b'a', b'b', b'c']);
    assert_eq!(ler_bytes_em(&saida, 0), Some((b"abc".to_vec(), 11)));
    // A length that runs past the end does not read.
    assert_eq!(ler_bytes_em(&saida[..10], 0), None);
    assert_eq!(ler_bytes_em(&saida[..5], 0), None);
    let mut vazio = Vec::new();
    escrever_bytes(&mut vazio, b"");
    assert_eq!(ler_bytes_em(&vazio, 0), Some((Vec::new(), 8)));
}

#[test]
fn texto_ida_e_volta() {
    let mut saida = Vec::new();
    escrever_texto(&mut saida, "nó-1");
    let (t, p) = ler_texto_em(&saida, 0).unwrap();
    assert_eq!(t, "nó-1");
    assert_eq!(p, saida.len());
}

#[test]
fn texto_invalido_nao_le() {
    let dados = vec![2, 0, 0, 0, 0, 0, 0, 0, 0xFF, 0xFE];
    assert!(ler_texto_em(&dados, 0).is_none());
    assert!(texto_de_bytes(vec![0xC0]).is_none());
    assert_eq!(texto_de_bytes(b"abc".to_vec()).unwrap(), "abc");
}

#[test]
fn instante_ida_e_volta_com_segundos_negativos() {
    let t = Instante::new(-5, 999_999_999);
    let mut saida = Vec::new();
    escrever_instante(&mut saida, &t);
    assert_eq!(saida.len(), 12);
    assert_eq!(ler_instante_em(&saida, 0), Some((t, 12)));
    assert_eq!(ler_instante_em(&saida[..11], 0), None);
}
