//! Character-level text operations used on the coordinates found in a text.

use vstd::prelude::*;

verus! {

/// The text `s` with every `'.'` taken out, the other characters kept in order.
pub open spec fn sem_pontos(s: Seq<char>) -> Seq<char>
    decreases s.len(),
{
    if s.len() == 0 {
        Seq::empty()
    } else {
        let resto = sem_pontos(s.drop_last());
        if s.last() == '.' {
            resto
        } else {
            resto.push(s.last())
        }
    }
}

/// `s` holds no `'.'`.
pub open spec fn sem_ponto_algum(s: Seq<char>) -> bool {
    forall|i: int| 0 <= i < s.len() ==> #[trigger] s[i] != '.'
}

/// Appending a piece without dots appends that piece unchanged.
proof fn lemma_sem_pontos_concat(a: Seq<char>, t: Seq<char>)
    requires
        sem_ponto_algum(t),
    ensures
        sem_pontos(a + t) == sem_pontos(a) + t,
    decreases t.len(),
{
    if t.len() == 0 {
        assert(a + t =~= a);
        assert(sem_pontos(a) + t =~= sem_pontos(a));
    } else {
        let t0 = t.drop_last();
        assert(sem_ponto_algum(t0));
        lemma_sem_pontos_concat(a, t0);
        assert((a + t).drop_last() =~= a + t0);
        assert((a + t).last() == t.last());
        assert(t.last() != '.');
        assert(sem_pontos(a) + t0.push(t.last()) =~= (sem_pontos(a) + t0).push(t.last()));
        assert(t0.push(t.last()) =~= t);
    }
}

/// One step of the scan: the prefix up to a dot loses that dot.
proof fn lemma_sem_pontos_passo(s: Seq<char>, i: int)
    requires
        0 <= i < s.len(),
    ensures
        s[i] == '.' ==> sem_pontos(s.take(i + 1)) == sem_pontos(s.take(i)),
        s[i] != '.' ==> sem_pontos(s.take(i + 1)) == sem_pontos(s.take(i)).push(s[i]),
{
    assert(s.take(i + 1).drop_last() =~= s.take(i));
}

/// What `sem_pontos` returns holds no dot.
pub proof fn lemma_sem_pontos_sem_ponto(s: Seq<char>)
    ensures
        sem_ponto_algum(sem_pontos(s)),
    decreases s.len(),
{
    if s.len() > 0 {
        lemma_sem_pontos_sem_ponto(s.drop_last());
    }
}

/// Taking the dots out of a text is idempotent: a second pass changes nothing.
pub proof fn lei_remove_pontos_idempotente(s: Seq<char>)
    ensures
        sem_pontos(sem_pontos(s)) == sem_pontos(s),
{
    lemma_sem_pontos_sem_ponto(s);
    lemma_sem_pontos_concat(Seq::empty(), sem_pontos(s));
    assert(Seq::<char>::empty() + sem_pontos(s) =~= sem_pontos(s));
    assert(sem_pontos(Seq::<char>::empty()) =~= Seq::<char>::empty());
    assert(Seq::<char>::empty() + sem_pontos(s) =~= sem_pontos(s));
}

/// Taking out the dots keeps exactly the characters that are not dots, in
/// their order: it is the filter of `s` by "is not a dot".
pub proof fn lei_sem_pontos_filtra(s: Seq<char>)
    ensures
        sem_pontos(s) == s.filter(|c: char| c != '.'),
    decreases s.len(),
{
    reveal_with_fuel(Seq::<char>::filter, 1);
    if s.len() > 0 {
        lei_sem_pontos_filtra(s.drop_last());
    }
}

/// Takes every `'.'` out of `s`, as `str::replace(".", "")` does.
pub fn remove_pontos(s: &str) -> (r: String)
    ensures
        r@ == sem_pontos(s@),
        r@ == s@.filter(|c: char| c != '.'),
{
    proof {
        lei_sem_pontos_filtra(s@);
    }
    let n = s.unicode_len();
    let mut r = String::new();
    let mut inicio: usize = 0;
    let mut i: usize = 0;
    while i < n
        invariant
            n == s@.len(),
            inicio <= i <= n,
            r@ == sem_pontos(s@.take(inicio as int)),
            sem_ponto_algum(s@.subrange(inicio as int, i as int)),
        decreases n - i,
    {
        let c = s.get_char(i);
        proof {
            lemma_sem_pontos_passo(s@, i as int);
        }
        if c == '.' {
            let trecho = s.substring_char(inicio, i);
            proof {
                lemma_sem_pontos_concat(s@.take(inicio as int), trecho@);
                assert(s@.take(inicio as int) + trecho@ =~= s@.take(i as int));
            }
            r.append(trecho);
            inicio = i + 1;
            assert(s@.subrange(inicio as int, (i + 1) as int) =~= Seq::<char>::empty());
        } else {
            assert(s@.subrange(inicio as int, (i + 1) as int) =~= s@.subrange(inicio as int, i as int).push(c));
        }
        i = i + 1;
    }
    let trecho = s.substring_char(inicio, n);
    proof {
        lemma_sem_pontos_concat(s@.take(inicio as int), trecho@);
        assert(s@.take(inicio as int) + trecho@ =~= s@);
        assert(s@.take(n as int) =~= s@);
    }
    r.append(trecho);
    r
}

} // verus!
