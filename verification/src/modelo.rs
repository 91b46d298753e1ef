//! The abstract model of a profile table: a sequence of (name, expressions)
//! entries kept in strictly increasing name order, read as a finite map.

use vstd::prelude::*;

use crate::ordem::{lemma_precede_irreflexiva, lemma_precede_transitiva, precede};

verus! {

/// The pair (latitude expression, longitude expression) of one profile.
pub type VistaExpressoes = (Seq<char>, Seq<char>);

/// One entry of a profile table: the profile's name and its expressions.
pub type Entrada = (Seq<char>, VistaExpressoes);

/// The names of `m` increase strictly from first to last, so no name occurs twice.
pub open spec fn ordenada(m: Seq<Entrada>) -> bool {
    forall|i: int, j: int| 0 <= i < j < m.len() ==> precede(#[trigger] m[i].0, #[trigger] m[j].0)
}

/// Some entry of `m` has the name `k`.
pub open spec fn tem_chave(m: Seq<Entrada>, k: Seq<char>) -> bool {
    exists|i: int| 0 <= i < m.len() && #[trigger] m[i].0 == k
}

/// The map from each name of `m` to the expressions stored under it.
pub open spec fn mapa(m: Seq<Entrada>) -> Map<Seq<char>, VistaExpressoes> {
    Map::new(
        |k: Seq<char>| tem_chave(m, k),
        |k: Seq<char>| m[choose|i: int| 0 <= i < m.len() && #[trigger] m[i].0 == k].1,
    )
}

/// The names of `m`, in the order in which they are stored.
pub open spec fn nomes(m: Seq<Entrada>) -> Seq<Seq<char>> {
    m.map_values(|e: Entrada| e.0)
}

/// In an ordered table each name occurs at one index only.
pub proof fn lemma_indice_unico(m: Seq<Entrada>, i: int, j: int)
    requires
        ordenada(m),
        0 <= i < m.len(),
        0 <= j < m.len(),
        m[i].0 == m[j].0,
    ensures
        i == j,
{
    if i < j {
        assert(precede(m[i].0, m[j].0));
        lemma_precede_irreflexiva(m[i].0);
    } else if j < i {
        assert(precede(m[j].0, m[i].0));
        lemma_precede_irreflexiva(m[i].0);
    }
}

/// The map of an ordered table holds each entry's name with that entry's expressions.
pub proof fn lemma_mapa_indice(m: Seq<Entrada>, i: int)
    requires
        ordenada(m),
        0 <= i < m.len(),
    ensures
        mapa(m).dom().contains(m[i].0),
        mapa(m)[m[i].0] == m[i].1,
{
    assert(tem_chave(m, m[i].0));
    let j = choose|j: int| 0 <= j < m.len() && #[trigger] m[j].0 == m[i].0;
    lemma_indice_unico(m, i, j);
}

/// Inserting, at its place in the order, an entry whose name is new.
pub proof fn lemma_mapa_insere(m: Seq<Entrada>, i: int, x: Entrada)
    requires
        ordenada(m),
        0 <= i <= m.len(),
        forall|j: int| 0 <= j < i ==> precede(#[trigger] m[j].0, x.0),
        i < m.len() ==> precede(x.0, m[i].0),
    ensures
        ordenada(m.insert(i, x)),
        mapa(m.insert(i, x)) == mapa(m).insert(x.0, x.1),
{
    let m2 = m.insert(i, x);
    m.insert_ensures(i, x);
    assert forall|a: int, b: int| 0 <= a < b < m2.len() implies precede(
        #[trigger] m2[a].0,
        #[trigger] m2[b].0,
    ) by {
        if b < i {
        } else if b == i {
        } else if a < i {
            assert(m2[b] == m[b - 1]);
            if b - 1 == i {
                lemma_precede_transitiva(m[a].0, x.0, m[i].0);
            } else {
                assert(precede(m[a].0, m[b - 1].0));
            }
        } else if a == i {
            assert(m2[b] == m[b - 1]);
            if b - 1 > i {
                assert(precede(m[i].0, m[b - 1].0));
                lemma_precede_transitiva(x.0, m[i].0, m[b - 1].0);
            }
        } else {
            assert(m2[a] == m[a - 1]);
            assert(m2[b] == m[b - 1]);
            assert(precede(m[a - 1].0, m[b - 1].0));
        }
    }
    assert(!tem_chave(m, x.0)) by {
        if tem_chave(m, x.0) {
            let j = choose|j: int| 0 <= j < m.len() && #[trigger] m[j].0 == x.0;
            if j < i {
                lemma_precede_irreflexiva(x.0);
            } else {
                if j > i {
                    assert(precede(m[i].0, m[j].0));
                    lemma_precede_transitiva(x.0, m[i].0, m[j].0);
                }
                lemma_precede_irreflexiva(x.0);
            }
        }
    }
    let alvo = mapa(m).insert(x.0, x.1);
    assert forall|k: Seq<char>| #[trigger] mapa(m2).dom().contains(k) <==> alvo.dom().contains(k) by {
        if tem_chave(m2, k) {
            let j = choose|j: int| 0 <= j < m2.len() && #[trigger] m2[j].0 == k;
            if j < i {
                assert(m[j].0 == k);
            } else if j > i {
                assert(m[j - 1].0 == k);
            }
        }
        if tem_chave(m, k) {
            let j = choose|j: int| 0 <= j < m.len() && #[trigger] m[j].0 == k;
            if j < i {
                assert(m2[j].0 == k);
            } else {
                assert(m2[j + 1].0 == k);
            }
        }
        if k == x.0 {
            assert(m2[i].0 == k);
        }
    }
    assert forall|k: Seq<char>| mapa(m2).dom().contains(k) implies #[trigger] mapa(m2)[k] == alvo[k] by {
        let j = choose|j: int| 0 <= j < m2.len() && #[trigger] m2[j].0 == k;
        lemma_mapa_indice(m2, j);
        if j < i {
            lemma_mapa_indice(m, j);
        } else if j > i {
            lemma_mapa_indice(m, j - 1);
        }
    }
    assert(mapa(m2) =~= alvo);
}

/// Replacing the expressions of an entry, its name unchanged.
pub proof fn lemma_mapa_atualiza(m: Seq<Entrada>, i: int, x: Entrada)
    requires
        ordenada(m),
        0 <= i < m.len(),
        m[i].0 == x.0,
    ensures
        ordenada(m.update(i, x)),
        mapa(m.update(i, x)) == mapa(m).insert(x.0, x.1),
{
    let m2 = m.update(i, x);
    assert forall|a: int, b: int| 0 <= a < b < m2.len() implies precede(
        #[trigger] m2[a].0,
        #[trigger] m2[b].0,
    ) by {
        assert(m2[a].0 == m[a].0);
        assert(m2[b].0 == m[b].0);
    }
    let alvo = mapa(m).insert(x.0, x.1);
    assert forall|k: Seq<char>| #[trigger] mapa(m2).dom().contains(k) <==> alvo.dom().contains(k) by {
        if tem_chave(m2, k) {
            let j = choose|j: int| 0 <= j < m2.len() && #[trigger] m2[j].0 == k;
            assert(m[j].0 == k);
        }
        if tem_chave(m, k) {
            let j = choose|j: int| 0 <= j < m.len() && #[trigger] m[j].0 == k;
            assert(m2[j].0 == k);
        }
        if k == x.0 {
            assert(m2[i].0 == k);
        }
    }
    assert forall|k: Seq<char>| mapa(m2).dom().contains(k) implies #[trigger] mapa(m2)[k] == alvo[k] by {
        let j = choose|j: int| 0 <= j < m2.len() && #[trigger] m2[j].0 == k;
        lemma_mapa_indice(m2, j);
        if j != i {
            assert(m2[j] == m[j]);
            lemma_mapa_indice(m, j);
            if k == x.0 {
                lemma_indice_unico(m, i, j);
            }
        } else {
            assert(m2[j] == x);
        }
    }
    assert(mapa(m2) =~= alvo);
}

/// Taking out the entry at index `i`.
pub proof fn lemma_mapa_remove(m: Seq<Entrada>, i: int)
    requires
        ordenada(m),
        0 <= i < m.len(),
    ensures
        ordenada(m.remove(i)),
        mapa(m.remove(i)) == mapa(m).remove(m[i].0),
{
    let m2 = m.remove(i);
    m.remove_ensures(i);
    assert forall|a: int, b: int| 0 <= a < b < m2.len() implies precede(
        #[trigger] m2[a].0,
        #[trigger] m2[b].0,
    ) by {
        if b < i {
        } else if a < i {
            assert(m2[b] == m[b + 1]);
            assert(precede(m[a].0, m[b + 1].0));
        } else {
            assert(m2[a] == m[a + 1]);
            assert(m2[b] == m[b + 1]);
            assert(precede(m[a + 1].0, m[b + 1].0));
        }
    }
    let alvo = mapa(m).remove(m[i].0);
    assert forall|k: Seq<char>| #[trigger] mapa(m2).dom().contains(k) <==> alvo.dom().contains(k) by {
        if tem_chave(m2, k) {
            let j = choose|j: int| 0 <= j < m2.len() && #[trigger] m2[j].0 == k;
            if j < i {
                assert(m[j].0 == k);
                if k == m[i].0 {
                    lemma_indice_unico(m, i, j);
                }
            } else {
                assert(m[j + 1].0 == k);
                if k == m[i].0 {
                    lemma_indice_unico(m, i, j + 1);
                }
            }
        }
        if tem_chave(m, k) && k != m[i].0 {
            let j = choose|j: int| 0 <= j < m.len() && #[trigger] m[j].0 == k;
            if j < i {
                assert(m2[j].0 == k);
            } else {
                assert(j != i);
                assert(m2[j - 1].0 == k);
            }
        }
    }
    assert forall|k: Seq<char>| mapa(m2).dom().contains(k) implies #[trigger] mapa(m2)[k] == alvo[k] by {
        let j = choose|j: int| 0 <= j < m2.len() && #[trigger] m2[j].0 == k;
        lemma_mapa_indice(m2, j);
        if j < i {
            lemma_mapa_indice(m, j);
        } else {
            lemma_mapa_indice(m, j + 1);
        }
    }
    assert(mapa(m2) =~= alvo);
}

/// The names of an ordered table are the domain of its map, in strictly increasing order.
pub proof fn lemma_nomes(m: Seq<Entrada>)
    requires
        ordenada(m),
    ensures
        nomes(m).len() == m.len(),
        nomes(m).no_duplicates(),
        nomes(m).to_set() == mapa(m).dom(),
        forall|i: int, j: int|
            0 <= i < j < nomes(m).len() ==> precede(#[trigger] nomes(m)[i], #[trigger] nomes(m)[j]),
{
    let ns = nomes(m);
    assert forall|i: int, j: int| 0 <= i < j < ns.len() implies precede(
        #[trigger] ns[i],
        #[trigger] ns[j],
    ) by {
        assert(ns[i] == m[i].0);
        assert(ns[j] == m[j].0);
    }
    assert forall|i: int, j: int| 0 <= i < ns.len() && 0 <= j < ns.len() && i != j implies ns[i]
        != ns[j] by {
        assert(ns[i] == m[i].0);
        assert(ns[j] == m[j].0);
        if ns[i] == ns[j] {
            lemma_indice_unico(m, i, j);
        }
    }
    assert forall|k: Seq<char>| #[trigger] ns.to_set().contains(k) <==> mapa(m).dom().contains(k) by {
        if ns.contains(k) {
            let j = choose|j: int| 0 <= j < ns.len() && ns[j] == k;
            assert(m[j].0 == k);
        }
        if tem_chave(m, k) {
            let j = choose|j: int| 0 <= j < m.len() && #[trigger] m[j].0 == k;
            assert(ns[j] == k);
        }
    }
    assert(ns.to_set() =~= mapa(m).dom());
}

} // verus!
