//! The order of profile names: lexicographic by character code, the order in
//! which `String`s compare.

use vstd::prelude::*;

verus! {

/// `a` comes strictly before `b`: at the first position where they differ the
/// character of `a` is smaller, or `a` is a proper prefix of `b`.
pub open spec fn precede(a: Seq<char>, b: Seq<char>) -> bool
    decreases a.len(),
{
    if a.len() == 0 {
        b.len() > 0
    } else if b.len() == 0 {
        false
    } else if a[0] != b[0] {
        a[0] < b[0]
    } else {
        precede(a.drop_first(), b.drop_first())
    }
}

/// Nothing comes before itself.
pub proof fn lemma_precede_irreflexiva(a: Seq<char>)
    ensures
        !precede(a, a),
    decreases a.len(),
{
    if a.len() > 0 {
        lemma_precede_irreflexiva(a.drop_first());
    }
}

/// The order is transitive.
pub proof fn lemma_precede_transitiva(a: Seq<char>, b: Seq<char>, c: Seq<char>)
    requires
        precede(a, b),
        precede(b, c),
    ensures
        precede(a, c),
    decreases a.len(),
{
    if a.len() > 0 && b.len() > 0 && c.len() > 0 {
        if a[0] == b[0] && b[0] == c[0] {
            lemma_precede_transitiva(a.drop_first(), b.drop_first(), c.drop_first());
        }
    }
}

/// Of two different names, one comes before the other.
pub proof fn lemma_precede_total(a: Seq<char>, b: Seq<char>)
    requires
        a != b,
    ensures
        precede(a, b) || precede(b, a),
    decreases a.len(),
{
    if a.len() == 0 {
        assert(b.len() != 0) by {
            if b.len() == 0 {
                assert(a =~= b);
            }
        }
    } else if b.len() > 0 {
        if a[0] == b[0] {
            if a.drop_first() == b.drop_first() {
                assert(a =~= seq![a[0]] + a.drop_first());
                assert(b =~= seq![b[0]] + b.drop_first());
            }
            lemma_precede_total(a.drop_first(), b.drop_first());
        }
    }
}

/// The order is asymmetric.
pub proof fn lemma_precede_assimetrica(a: Seq<char>, b: Seq<char>)
    requires
        precede(a, b),
    ensures
        !precede(b, a),
{
    if precede(b, a) {
        lemma_precede_transitiva(a, b, a);
        lemma_precede_irreflexiva(a);
    }
}

/// A common prefix does not change the comparison.
proof fn lemma_precede_prefixo(a: Seq<char>, b: Seq<char>, i: int)
    requires
        0 <= i <= a.len(),
        i <= b.len(),
        a.take(i) == b.take(i),
    ensures
        precede(a, b) == precede(a.skip(i), b.skip(i)),
    decreases i,
{
    if i > 0 {
        assert(a[0] == a.take(i)[0]);
        assert(b[0] == b.take(i)[0]);
        assert(a.drop_first().take(i - 1) =~= a.take(i).drop_first());
        assert(b.drop_first().take(i - 1) =~= b.take(i).drop_first());
        lemma_precede_prefixo(a.drop_first(), b.drop_first(), i - 1);
        assert(a.drop_first().skip(i - 1) =~= a.skip(i));
        assert(b.drop_first().skip(i - 1) =~= b.skip(i));
    } else {
        assert(a.skip(0) =~= a);
        assert(b.skip(0) =~= b);
    }
}

/// Names compare by character code at the first position where they differ:
/// the name with the smaller character there comes first.
pub proof fn lei_precede_primeira_diferenca(a: Seq<char>, b: Seq<char>, i: int)
    requires
        0 <= i < a.len(),
        i < b.len(),
        a.take(i) == b.take(i),
        a[i] != b[i],
    ensures
        precede(a, b) <==> a[i] < b[i],
        precede(b, a) <==> b[i] < a[i],
{
    lemma_precede_prefixo(a, b, i);
    lemma_precede_prefixo(b, a, i);
    assert(a.skip(i)[0] == a[i]);
    assert(b.skip(i)[0] == b[i]);
}

/// A name comes before every longer name that it begins.
pub proof fn lei_precede_prefixo_proprio(a: Seq<char>, b: Seq<char>)
    requires
        a.len() < b.len(),
        b.take(a.len() as int) == a,
    ensures
        precede(a, b),
        !precede(b, a),
{
    assert(a.take(a.len() as int) =~= a);
    lemma_precede_prefixo(a, b, a.len() as int);
    lemma_precede_assimetrica(a, b);
}

/// The two laws above, for all positions of a given pair of names.
proof fn lemma_precede_pelas_leis(a: Seq<char>, b: Seq<char>)
    ensures
        forall|i: int|
            #![trigger a[i], b[i]]
            0 <= i < a.len() && i < b.len() && a.take(i) == b.take(i) && a[i] != b[i] ==> (precede(
                a,
                b,
            ) <==> a[i] < b[i]),
        a.len() < b.len() && b.take(a.len() as int) == a ==> precede(a, b),
        b.len() < a.len() && a.take(b.len() as int) == b ==> precede(b, a),
{
    assert forall|i: int|
        #![trigger a[i], b[i]]
        0 <= i < a.len() && i < b.len() && a.take(i) == b.take(i) && a[i] != b[i] implies (precede(
            a,
            b,
        ) <==> a[i] < b[i]) by {
        lei_precede_primeira_diferenca(a, b, i);
    }
    if a.len() < b.len() && b.take(a.len() as int) == a {
        lei_precede_prefixo_proprio(a, b);
    }
    if b.len() < a.len() && a.take(b.len() as int) == b {
        lei_precede_prefixo_proprio(b, a);
    }
}

/// The result of comparing two names.
#[derive(Clone, Copy, Debug, PartialEq, Eq, Structural)]
pub enum Ordem {
    Menor,
    Igual,
    Maior,
}

/// Compares two names character by character.
pub fn compara(a: &str, b: &str) -> (r: Ordem)
    ensures
        r == Ordem::Menor <==> precede(a@, b@),
        r == Ordem::Igual <==> a@ == b@,
        r == Ordem::Maior <==> precede(b@, a@),
        forall|i: int|
            #![trigger a@[i], b@[i]]
            0 <= i < a@.len() && i < b@.len() && a@.take(i) == b@.take(i) && a@[i] != b@[i] ==> (r
                == Ordem::Menor <==> a@[i] < b@[i]),
        a@.len() < b@.len() && b@.take(a@.len() as int) == a@ ==> r == Ordem::Menor,
        b@.len() < a@.len() && a@.take(b@.len() as int) == b@ ==> r == Ordem::Maior,
{
    proof {
        lemma_precede_pelas_leis(a@, b@);
    }
    let na = a.unicode_len();
    let nb = b.unicode_len();
    let mut i: usize = 0;
    while i < na && i < nb
        invariant
            na == a@.len(),
            nb == b@.len(),
            i <= na,
            i <= nb,
            a@.take(i as int) == b@.take(i as int),
        decreases na - i,
    {
        let ca = a.get_char(i);
        let cb = b.get_char(i);
        if ca != cb {
            proof {
                lemma_precede_prefixo(a@, b@, i as int);
                lemma_precede_prefixo(b@, a@, i as int);
                assert(a@.skip(i as int)[0] == ca);
                assert(b@.skip(i as int)[0] == cb);
                lemma_precede_pelas_leis(a@, b@);
                if precede(a@, b@) {
                    lemma_precede_assimetrica(a@, b@);
                } else {
                    lemma_precede_assimetrica(b@, a@);
                }
                assert(a@ != b@) by {
                    if a@ == b@ {
                        assert(a@[i as int] == b@[i as int]);
                    }
                }
            }
            if ca < cb {
                return Ordem::Menor;
            } else {
                return Ordem::Maior;
            }
        }
        assert(a@.take(i + 1) =~= a@.take(i as int).push(ca));
        assert(b@.take(i + 1) =~= b@.take(i as int).push(cb));
        i = i + 1;
    }
    proof {
        lemma_precede_prefixo(a@, b@, i as int);
        lemma_precede_prefixo(b@, a@, i as int);
        lemma_precede_irreflexiva(a@);
    }
    if na == nb {
        assert(a@ =~= a@.take(i as int));
        assert(b@ =~= b@.take(i as int));
        Ordem::Igual
    } else if na < nb {
        assert(a@.skip(i as int).len() == 0);
        assert(a@ != b@);
        Ordem::Menor
    } else {
        assert(b@.skip(i as int).len() == 0);
        assert(a@ != b@);
        Ordem::Maior
    }
}

} // verus!
