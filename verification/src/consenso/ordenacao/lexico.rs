//! Lexicographic order on byte strings.

use vstd::prelude::*;

verus! {

/// `a <= b` in lexicographic order: the first differing byte decides, and a
/// proper prefix comes first.
pub open spec fn lex_leq(a: Seq<u8>, b: Seq<u8>) -> bool
    decreases a.len(),
{
    if a.len() == 0 {
        true
    } else if b.len() == 0 {
        false
    } else if a[0] != b[0] {
        a[0] < b[0]
    } else {
        lex_leq(a.drop_first(), b.drop_first())
    }
}

/// Any two byte strings compare one way or the other.
pub proof fn lema_lex_total(a: Seq<u8>, b: Seq<u8>)
    ensures
        lex_leq(a, b) || lex_leq(b, a),
    decreases a.len(),
{
    if a.len() > 0 && b.len() > 0 && a[0] == b[0] {
        lema_lex_total(a.drop_first(), b.drop_first());
    }
}

/// Two byte strings that compare both ways are equal.
pub proof fn lema_lex_antissimetrica(a: Seq<u8>, b: Seq<u8>)
    requires
        lex_leq(a, b),
        lex_leq(b, a),
    ensures
        a == b,
    decreases a.len(),
{
    if a.len() == 0 || b.len() == 0 {
        assert(a =~= b);
    } else {
        lema_lex_antissimetrica(a.drop_first(), b.drop_first());
        assert(a =~= seq![a[0]] + a.drop_first());
        assert(b =~= seq![b[0]] + b.drop_first());
    }
}

pub proof fn lema_lex_transitiva(a: Seq<u8>, b: Seq<u8>, c: Seq<u8>)
    requires
        lex_leq(a, b),
        lex_leq(b, c),
    ensures
        lex_leq(a, c),
    decreases a.len(),
{
    if a.len() > 0 && b.len() > 0 && c.len() > 0 && a[0] == b[0] && b[0] == c[0] {
        lema_lex_transitiva(a.drop_first(), b.drop_first(), c.drop_first());
    }
}

pub proof fn lema_lex_reflexiva(a: Seq<u8>)
    ensures
        lex_leq(a, a),
    decreases a.len(),
{
    if a.len() > 0 {
        lema_lex_reflexiva(a.drop_first());
    }
}

/// Whether `a <= b` in lexicographic order.
pub fn lex_menor_ou_igual(a: &[u8], b: &[u8]) -> (r: bool)
    ensures
        r == lex_leq(a@, b@),
{
    let mut i: usize = 0;
    assert(a@.skip(0) =~= a@);
    assert(b@.skip(0) =~= b@);
    while i < a.len() && i < b.len()
        invariant
            i <= a@.len(),
            i <= b@.len(),
            lex_leq(a@, b@) == lex_leq(a@.skip(i as int), b@.skip(i as int)),
        decreases a@.len() - i,
    {
        let ghost ra = a@.skip(i as int);
        let ghost rb = b@.skip(i as int);
        assert(ra[0] == a@[i as int] && rb[0] == b@[i as int]);
        if a[i] != b[i] {
            return a[i] < b[i];
        }
        assert(ra.drop_first() =~= a@.skip(i + 1));
        assert(rb.drop_first() =~= b@.skip(i + 1));
        i += 1;
    }
    i >= a.len()
}

} // verus!
