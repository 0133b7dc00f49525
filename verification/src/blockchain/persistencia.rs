//! What the chain writes to and reads from a key-value store: the keys, the
//! values, and the rebuilding of a chain from a scan of the store.

use vstd::prelude::*;
use crate::blockchain::bloco::{Bloco, BlocoView};
use crate::blockchain::cadeia::visoes_blocos;
use crate::blockchain::formato::{cod_bloco, decodificar_quadro, CARGA_MAXIMA};
use crate::codificacao::{cod_u64, escrever_u64};
use crate::erro::Erro;

verus! {

/// ASCII `bloco_`, the prefix of every block key.
pub open spec fn prefixo_bloco() -> Seq<u8> {
    seq![98u8, 108u8, 111u8, 99u8, 111u8, 95u8]
}

/// ASCII `altura_atual`, the key of the current height.
pub open spec fn chave_altura() -> Seq<u8> {
    seq![97u8, 108u8, 116u8, 117u8, 114u8, 97u8, 95u8, 97u8, 116u8, 117u8, 97u8, 108u8]
}

/// Width to which block numbers are padded with zeros in a key.
pub const LARGURA_NUMERO: usize = 10;

/// ASCII `0`.
pub const DIGITO_ZERO: u8 = 48;

/// The decimal digits of `n` in ASCII, most significant first.
pub open spec fn decimal(n: nat) -> Seq<u8>
    decreases n,
{
    if n < 10 {
        seq![(DIGITO_ZERO + n) as u8]
    } else {
        decimal(n / 10).push((DIGITO_ZERO + n % 10) as u8)
    }
}

/// `n` in decimal, padded on the left with zeros to `LARGURA_NUMERO` digits.
pub open spec fn decimal_com_zeros(n: nat) -> Seq<u8> {
    let d = decimal(n);
    if d.len() >= LARGURA_NUMERO {
        d
    } else {
        Seq::new((LARGURA_NUMERO - d.len()) as nat, |i: int| DIGITO_ZERO) + d
    }
}

/// The key of block `numero`: `bloco_` and the number in ten digits.
pub open spec fn chave_bloco(numero: u64) -> Seq<u8> {
    prefixo_bloco() + decimal_com_zeros(numero as nat)
}

/// Whether `chave` begins with `bloco_`.
pub open spec fn chave_de_bloco(chave: Seq<u8>) -> bool {
    chave.len() >= prefixo_bloco().len() && chave.take(prefixo_bloco().len() as int)
        == prefixo_bloco()
}

/// The view of a scan: keys and values.
pub open spec fn visoes_registros(registros: Seq<(Vec<u8>, Vec<u8>)>) -> Seq<(Seq<u8>, Seq<u8>)> {
    Seq::new(registros.len(), |i: int| (registros[i].0@, registros[i].1@))
}

/// The blocks that a scan holds, in scan order: the value of every record
/// whose key begins with `bloco_`, decoded. `None` where one of them does
/// not decode.
pub open spec fn decodificados(registros: Seq<(Seq<u8>, Seq<u8>)>) -> Option<Seq<BlocoView>>
    decreases registros.len(),
{
    if registros.len() == 0 {
        Some(Seq::empty())
    } else {
        match decodificados(registros.drop_last()) {
            Some(antes) => if chave_de_bloco(registros.last().0) {
                match decodificar_quadro(registros.last().1) {
                    Some(b) => Some(antes.push(b)),
                    None => None,
                }
            } else {
                Some(antes)
            },
            None => None,
        }
    }
}

/// `b` put into `s` behind the last block whose number is not above its
/// own.
pub open spec fn inserir_por_numero(s: Seq<BlocoView>, b: BlocoView) -> Seq<BlocoView>
    decreases s.len(),
{
    if s.len() == 0 {
        seq![b]
    } else if s.last().numero <= b.numero {
        s.push(b)
    } else {
        inserir_por_numero(s.drop_last(), b).push(s.last())
    }
}

/// The blocks of `s` by ascending number, blocks of one number in the order
/// in which they stand in `s`.
pub open spec fn ordenar_por_numero(s: Seq<BlocoView>) -> Seq<BlocoView>
    decreases s.len(),
{
    if s.len() == 0 {
        Seq::empty()
    } else {
        inserir_por_numero(ordenar_por_numero(s.drop_last()), s.last())
    }
}

/// Whether the numbers of `s` never decrease.
pub open spec fn numeros_crescentes(s: Seq<BlocoView>) -> bool {
    forall|i: int, j: int| 0 <= i <= j < s.len() ==> s[i].numero <= s[j].numero
}

/// Where `b` lands in `s`: every block from `p` on has a larger number, and
/// the one before `p` has not.
pub proof fn lema_inserir_em(s: Seq<BlocoView>, b: BlocoView, p: int)
    requires
        0 <= p <= s.len(),
        forall|k: int| p <= k < s.len() ==> (#[trigger] s[k]).numero > b.numero,
        p > 0 ==> s[p - 1].numero <= b.numero,
    ensures
        inserir_por_numero(s, b) == s.insert(p, b),
    decreases s.len() - p,
{
    if p == s.len() {
        assert(s.push(b) =~= s.insert(p, b));
    } else {
        let antes = s.drop_last();
        lema_inserir_em(antes, b, p);
        assert(antes.insert(p, b).push(s.last()) =~= s.insert(p, b));
    }
}

/// Inserting keeps the same blocks and keeps ascending numbers ascending.
pub proof fn lema_inserir_preserva(s: Seq<BlocoView>, b: BlocoView)
    requires
        numeros_crescentes(s),
    ensures
        numeros_crescentes(inserir_por_numero(s, b)),
        inserir_por_numero(s, b).to_multiset() == s.to_multiset().insert(b),
        inserir_por_numero(s, b).len() == s.len() + 1,
    decreases s.len(),
{
    broadcast use vstd::seq_lib::group_to_multiset_ensures;

    if s.len() == 0 {
        assert(seq![b] =~= s.push(b));
    } else if s.last().numero <= b.numero {
    } else {
        let antes = s.drop_last();
        assert(numeros_crescentes(antes));
        lema_inserir_preserva(antes, b);
        let meio = inserir_por_numero(antes, b);
        let r = meio.push(s.last());
        assert(s =~= antes.push(s.last()));
        assert(r.to_multiset() =~= s.to_multiset().insert(b));
        assert forall|i: int, j: int| 0 <= i <= j < r.len() implies r[i].numero
            <= r[j].numero by {
            if j == r.len() - 1 {
                if i < j {
                    assert(meio.to_multiset().count(meio[i]) > 0);
                    if meio[i] != b {
                        assert(antes.to_multiset().count(meio[i]) > 0);
                        let k = choose|k: int| 0 <= k < antes.len() && antes[k] == meio[i];
                        assert(s[k].numero <= s[s.len() - 1].numero);
                    }
                }
            }
        }
    }
}

/// Sorting keeps exactly the blocks it was given and puts their numbers in
/// ascending order.
pub proof fn lei_ordenar_por_numero(s: Seq<BlocoView>)
    ensures
        numeros_crescentes(ordenar_por_numero(s)),
        ordenar_por_numero(s).to_multiset() == s.to_multiset(),
        ordenar_por_numero(s).len() == s.len(),
    decreases s.len(),
{
    broadcast use vstd::seq_lib::group_to_multiset_ensures;

    if s.len() == 0 {
        assert(ordenar_por_numero(s) =~= s);
    } else {
        lei_ordenar_por_numero(s.drop_last());
        lema_inserir_preserva(ordenar_por_numero(s.drop_last()), s.last());
        assert(s =~= s.drop_last().push(s.last()));
    }
}

/// The six bytes of `bloco_`.
pub fn prefixo_bloco_vec() -> (r: Vec<u8>)
    ensures
        r@ == prefixo_bloco(),
{
    let r: Vec<u8> = vec![98u8, 108u8, 111u8, 99u8, 111u8, 95u8];
    assert(r@ =~= prefixo_bloco());
    r
}

/// The key under which the current height is stored.
pub fn chave_altura_vec() -> (r: Vec<u8>)
    ensures
        r@ == chave_altura(),
{
    let r: Vec<u8> = vec![
        97u8,
        108u8,
        116u8,
        117u8,
        114u8,
        97u8,
        95u8,
        97u8,
        116u8,
        117u8,
        97u8,
        108u8,
    ];
    assert(r@ =~= chave_altura());
    r
}

/// The decimal digits of `numero` in ASCII, most significant first.
pub fn digitos_decimais(numero: u64) -> (r: Vec<u8>)
    ensures
        r@ == decimal(numero as nat),
{
    // Digits, least significant first.
    let mut invertidos: Vec<u8> = Vec::new();
    let mut resto = numero;
    while resto >= 10
        invariant
            decimal(numero as nat) == decimal(resto as nat) + invertidos@.reverse(),
        decreases resto,
    {
        let digito = DIGITO_ZERO + (resto % 10) as u8;
        let ghost antes = invertidos@;
        invertidos.push(digito);
        proof {
            assert(invertidos@.reverse() =~= seq![digito] + antes.reverse());
            assert(decimal(resto as nat) == decimal((resto / 10) as nat).push(digito));
            assert(decimal((resto / 10) as nat).push(digito) + antes.reverse() =~= decimal(
                (resto / 10) as nat,
            ) + invertidos@.reverse());
        }
        resto = resto / 10;
    }
    invertidos.push(DIGITO_ZERO + resto as u8);
    proof {
        let antes = invertidos@.drop_last();
        assert(invertidos@.reverse() =~= seq![(DIGITO_ZERO + resto) as u8] + antes.reverse());
        assert(decimal(numero as nat) =~= invertidos@.reverse());
    }
    let total = invertidos.len();
    let ghost digitos = invertidos@.reverse();
    let mut r: Vec<u8> = Vec::new();
    let mut k: usize = total;
    assert(r@ =~= digitos.take(0));
    while k > 0
        invariant
            k <= total,
            total == invertidos@.len(),
            digitos == invertidos@.reverse(),
            r@ == digitos.take(total - k),
        decreases k,
    {
        k -= 1;
        r.push(invertidos[k]);
        assert(r@ =~= digitos.take(total - k));
    }
    assert(digitos.take(total as int) =~= digitos);
    r
}

/// The key under which block `numero` is stored.
pub fn chave_do_bloco(numero: u64) -> (r: Vec<u8>)
    ensures
        r@ == chave_bloco(numero),
{
    let digitos = digitos_decimais(numero);
    let total = digitos.len();
    let mut chave = prefixo_bloco_vec();
    let mut z: usize = total;
    assert(chave@ =~= prefixo_bloco() + Seq::new(0, |i: int| DIGITO_ZERO));
    while z < LARGURA_NUMERO
        invariant
            total <= z,
            total < LARGURA_NUMERO ==> z <= LARGURA_NUMERO,
            total >= LARGURA_NUMERO ==> z == total,
            chave@ == prefixo_bloco() + Seq::new((z - total) as nat, |i: int| DIGITO_ZERO),
        decreases LARGURA_NUMERO - z,
    {
        chave.push(DIGITO_ZERO);
        z += 1;
        assert(chave@ =~= prefixo_bloco() + Seq::new((z - total) as nat, |i: int| DIGITO_ZERO));
    }
    let ghost inicio = chave@;
    assert(inicio + digitos@ =~= chave_bloco(numero)) by {
        if total >= LARGURA_NUMERO {
            assert(Seq::new((z - total) as nat, |i: int| DIGITO_ZERO) =~= Seq::<u8>::empty());
            assert(inicio =~= prefixo_bloco());
        } else {
            assert(z == LARGURA_NUMERO);
            assert(inicio + digitos@ =~= prefixo_bloco() + (Seq::new(
                (LARGURA_NUMERO - total) as nat,
                |i: int| DIGITO_ZERO,
            ) + digitos@));
        }
    }
    let mut completa = chave;
    completa.extend_from_slice(digitos.as_slice());
    assert(completa@ =~= inicio + digitos@);
    completa
}

/// Whether `chave` begins with `bloco_`.
pub fn e_chave_de_bloco(chave: &[u8]) -> (r: bool)
    ensures
        r == chave_de_bloco(chave@),
{
    let prefixo = prefixo_bloco_vec();
    if chave.len() < prefixo.len() {
        return false;
    }
    let mut i: usize = 0;
    while i < prefixo.len()
        invariant
            i <= prefixo@.len() <= chave@.len(),
            prefixo@ == prefixo_bloco(),
            forall|k: int| 0 <= k < i ==> chave@[k] == prefixo@[k],
        decreases prefixo@.len() - i,
    {
        if chave[i] != prefixo[i] {
            assert(chave@.take(prefixo@.len() as int)[i as int] != prefixo@[i as int]);
            return false;
        }
        i += 1;
    }
    assert(chave@.take(prefixo@.len() as int) =~= prefixo@);
    true
}

/// The two writes that persist `bloco`: its frame under its key, and its
/// number, as eight little-endian bytes, under the height key. Fails
/// exactly where the block has no frame.
pub fn registros_do_bloco(bloco: &Bloco) -> (r: Result<Vec<(Vec<u8>, Vec<u8>)>, Erro>)
    ensures
        r is Ok <==> cod_bloco(bloco@).len() <= CARGA_MAXIMA,
        r matches Err(e) ==> e == Erro::BlocoGrandeDemais,
        r matches Ok(v) ==> {
            &&& v@.len() == 2
            &&& v@[0].0@ == chave_bloco(bloco.numero)
            &&& decodificar_quadro(v@[0].1@) == Some(bloco@)
            &&& v@[1].0@ == chave_altura()
            &&& v@[1].1@ == cod_u64(bloco.numero)
        },
{
    let quadro = match bloco.serializar_binario() {
        Ok(q) => q,
        Err(e) => {
            return Err(e);
        },
    };
    let mut altura: Vec<u8> = Vec::new();
    escrever_u64(&mut altura, bloco.numero);
    assert(altura@ =~= cod_u64(bloco.numero));
    let mut registros: Vec<(Vec<u8>, Vec<u8>)> = Vec::new();
    registros.push((chave_do_bloco(bloco.numero), quadro));
    registros.push((chave_altura_vec(), altura));
    Ok(registros)
}

/// Puts `b` into `ordenados` behind the last block whose number is not above
/// its own.
pub fn inserir_bloco_ordenado(ordenados: &mut Vec<Bloco>, b: Bloco)
    ensures
        visoes_blocos(final(ordenados)@) == inserir_por_numero(visoes_blocos(old(ordenados)@), b@),
{
    let ghost antes = visoes_blocos(ordenados@);
    let mut p: usize = ordenados.len();
    while p > 0 && ordenados[p - 1].numero > b.numero
        invariant
            p <= ordenados@.len(),
            ordenados@ == old(ordenados)@,
            antes == visoes_blocos(ordenados@),
            forall|k: int| p <= k < antes.len() ==> (#[trigger] antes[k]).numero > b.numero,
        decreases p,
    {
        p -= 1;
        assert(antes[p as int] == ordenados@[p as int]@);
    }
    proof {
        if p > 0 {
            assert(antes[p - 1] == ordenados@[p - 1]@);
        }
        lema_inserir_em(antes, b@, p as int);
    }
    let ghost visao = b@;
    ordenados.insert(p, b);
    assert(visoes_blocos(ordenados@) =~= antes.insert(p as int, visao));
}

/// Decodes every block of a scan, in scan order. Fails exactly where a
/// record under a block key does not decode.
pub fn decodificar_registros(registros: &Vec<(Vec<u8>, Vec<u8>)>) -> (r: Result<Vec<Bloco>, Erro>)
    ensures
        match decodificados(visoes_registros(registros@)) {
            Some(v) => r matches Ok(b) && visoes_blocos(b@) == v,
            None => r matches Err(e) && e == Erro::Decodificacao,
        },
{
    let ghost todos = visoes_registros(registros@);
    let mut blocos: Vec<Bloco> = Vec::new();
    let mut i: usize = 0;
    assert(todos.take(0) =~= Seq::<(Seq<u8>, Seq<u8>)>::empty());
    assert(visoes_blocos(blocos@) =~= Seq::<BlocoView>::empty());
    while i < registros.len()
        invariant
            i <= registros@.len(),
            todos == visoes_registros(registros@),
            decodificados(todos.take(i as int)) == Some(visoes_blocos(blocos@)),
        decreases registros@.len() - i,
    {
        let ghost feitos = visoes_blocos(blocos@);
        let ghost prox = todos.take(i + 1);
        assert(prox.drop_last() =~= todos.take(i as int));
        assert(prox.last() == (registros@[i as int].0@, registros@[i as int].1@));
        if e_chave_de_bloco(registros[i].0.as_slice()) {
            match Bloco::deserializar_binario(registros[i].1.as_slice()) {
                Ok(b) => {
                    let ghost visao = b@;
                    blocos.push(b);
                    assert(visoes_blocos(blocos@) =~= feitos.push(visao));
                },
                Err(e) => {
                    proof {
                        lema_falha_permanece(todos, i + 1);
                    }
                    return Err(e);
                },
            }
        }
        i += 1;
    }
    assert(todos.take(registros@.len() as int) =~= todos);
    Ok(blocos)
}

/// Once a prefix of a scan fails to decode, the whole scan fails.
pub proof fn lema_falha_permanece(registros: Seq<(Seq<u8>, Seq<u8>)>, n: int)
    requires
        0 <= n <= registros.len(),
        decodificados(registros.take(n)) is None,
    ensures
        decodificados(registros) is None,
    decreases registros.len() - n,
{
    if n == registros.len() {
        assert(registros.take(n) =~= registros);
    } else {
        assert(registros.take(n + 1).drop_last() =~= registros.take(n));
        lema_falha_permanece(registros, n + 1);
    }
}

} // verus!
