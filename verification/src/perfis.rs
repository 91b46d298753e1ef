//! Profiles: named pairs of regular expressions, one for latitudes and one
//! for longitudes, kept in a table ordered by name.

use vstd::prelude::*;

use crate::modelo::{
    lemma_mapa_atualiza, lemma_mapa_indice, lemma_mapa_insere, lemma_mapa_remove, lemma_nomes, mapa,
    nomes, ordenada, tem_chave, Entrada, VistaExpressoes,
};
use crate::ordem::{compara, precede, Ordem};

verus! {

/// The two regular expressions of a profile.
#[derive(Debug)]
pub struct Expressoes {
    pub latitude: String,
    pub longitude: String,
}

impl View for Expressoes {
    type V = VistaExpressoes;

    open spec fn view(&self) -> VistaExpressoes {
        (self.latitude@, self.longitude@)
    }
}

impl Expressoes {
    /// A profile's expressions from the two given texts.
    pub fn new(latitude: &str, longitude: &str) -> (r: Expressoes)
        ensures
            r@ == (latitude@, longitude@),
    {
        Expressoes { latitude: String::from_str(latitude), longitude: String::from_str(longitude) }
    }

    /// A copy of these expressions.
    pub fn copia(&self) -> (r: Expressoes)
        ensures
            r@ == self@,
    {
        Expressoes { latitude: self.latitude.clone(), longitude: self.longitude.clone() }
    }
}

/// A table of profiles keyed by name, with at most one profile per name,
/// kept in increasing name order.
#[derive(Debug)]
pub struct Perfis {
    entradas: Vec<(String, Expressoes)>,
}

impl Perfis {
    /// The entries as abstract values, in their stored order.
    pub closed spec fn modelo(&self) -> Seq<Entrada> {
        self.entradas@.map_values(|e: (String, Expressoes)| (e.0@, e.1@))
    }

    #[verifier::type_invariant]
    closed spec fn bem_formada(self) -> bool {
        ordenada(self.modelo())
    }

    /// The names of the profiles, in increasing order.
    pub closed spec fn nomes_ordenados(&self) -> Seq<Seq<char>> {
        nomes(self.modelo())
    }

    /// The profiles as a map from name to expressions.
    pub closed spec fn tabela(&self) -> Map<Seq<char>, VistaExpressoes> {
        mapa(self.modelo())
    }

    /// An empty table.
    pub fn new() -> (r: Perfis)
        ensures
            r@ == Map::<Seq<char>, VistaExpressoes>::empty(),
            r.nomes_ordenados() == Seq::<Seq<char>>::empty(),
    {
        let r = Perfis { entradas: Vec::new() };
        assert(r.modelo() =~= Seq::<Entrada>::empty());
        assert(mapa(r.modelo()) =~= Map::<Seq<char>, VistaExpressoes>::empty());
        assert(nomes(r.modelo()) =~= Seq::<Seq<char>>::empty());
        r
    }

    /// The number of profiles.
    pub fn len(&self) -> (n: usize)
        ensures
            n == self@.dom().len(),
            n == self.nomes_ordenados().len(),
    {
        proof {
            use_type_invariant(self);
            lemma_nomes(self.modelo());
            nomes(self.modelo()).unique_seq_to_set();
        }
        self.entradas.len()
    }

    /// The index of the first entry whose name does not come before `nome`,
    /// and whether that entry is named `nome`.
    fn posicao(&self, nome: &str) -> (r: (usize, bool))
        ensures
            r.0 <= self.modelo().len(),
            forall|j: int| 0 <= j < r.0 ==> precede(#[trigger] self.modelo()[j].0, nome@),
            r.1 ==> r.0 < self.modelo().len() && self.modelo()[r.0 as int].0 == nome@,
            !r.1 ==> (r.0 < self.modelo().len() ==> precede(nome@, self.modelo()[r.0 as int].0)),
    {
        let n = self.entradas.len();
        let mut i: usize = 0;
        while i < n
            invariant
                n == self.modelo().len(),
                i <= n,
                forall|j: int| 0 <= j < i ==> precede(#[trigger] self.modelo()[j].0, nome@),
            decreases n - i,
        {
            let c = compara(self.entradas[i].0.as_str(), nome);
            assert(self.modelo()[i as int].0 == self.entradas@[i as int].0@);
            match c {
                Ordem::Menor => {},
                Ordem::Igual => {
                    return (i, true);
                },
                Ordem::Maior => {
                    return (i, false);
                },
            }
            i = i + 1;
        }
        (i, false)
    }

    /// The expressions stored under `nome`, if any.
    pub fn busca(&self, nome: &str) -> (r: Option<Expressoes>)
        ensures
            r is Some <==> self@.dom().contains(nome@),
            r matches Some(e) ==> e@ == self@[nome@],
    {
        proof {
            use_type_invariant(self);
        }
        let (i, achou) = self.posicao(nome);
        if achou {
            proof {
                lemma_mapa_indice(self.modelo(), i as int);
            }
            assert(self.modelo()[i as int].1 == self.entradas@[i as int].1@);
            Some(self.entradas[i].1.copia())
        } else {
            proof {
                if tem_chave(self.modelo(), nome@) {
                    let j = choose|j: int|
                        0 <= j < self.modelo().len() && #[trigger] self.modelo()[j].0 == nome@;
                    if j < i {
                        crate::ordem::lemma_precede_irreflexiva(nome@);
                    } else {
                        if j > i {
                            assert(precede(self.modelo()[i as int].0, self.modelo()[j].0));
                            crate::ordem::lemma_precede_transitiva(
                                nome@,
                                self.modelo()[i as int].0,
                                nome@,
                            );
                        }
                        crate::ordem::lemma_precede_irreflexiva(nome@);
                    }
                }
            }
            None
        }
    }

    /// The names of the profiles, in increasing order: what fills the
    /// profile selector.
    pub fn chaves(&self) -> (r: Vec<String>)
        ensures
            r@.map_values(|s: String| s@) == self.nomes_ordenados(),
            self.nomes_ordenados().to_set() == self@.dom(),
            self.nomes_ordenados().no_duplicates(),
            forall|i: int, j: int|
                0 <= i < j < self.nomes_ordenados().len() ==> precede(
                    #[trigger] self.nomes_ordenados()[i],
                    #[trigger] self.nomes_ordenados()[j],
                ),
    {
        proof {
            use_type_invariant(self);
            lemma_nomes(self.modelo());
        }
        let n = self.entradas.len();
        let mut r: Vec<String> = Vec::new();
        let mut i: usize = 0;
        while i < n
            invariant
                n == self.modelo().len(),
                i <= n,
                r@.len() == i,
                forall|j: int| 0 <= j < i ==> #[trigger] r@[j]@ == self.modelo()[j].0,
            decreases n - i,
        {
            assert(self.modelo()[i as int].0 == self.entradas@[i as int].0@);
            r.push(self.entradas[i].0.clone());
            i = i + 1;
        }
        assert(r@.map_values(|s: String| s@) =~= nomes(self.modelo()));
        r
    }

    /// Every profile as a (name, expressions) pair, in increasing name order.
    pub fn pares(&self) -> (r: Vec<(String, Expressoes)>)
        ensures
            r@.len() == self.nomes_ordenados().len(),
            forall|i: int|
                0 <= i < r@.len() ==> {
                    &&& #[trigger] r@[i].0@ == self.nomes_ordenados()[i]
                    &&& self@.dom().contains(r@[i].0@)
                    &&& r@[i].1@ == self@[r@[i].0@]
                },
    {
        proof {
            use_type_invariant(self);
            lemma_nomes(self.modelo());
        }
        let n = self.entradas.len();
        let mut r: Vec<(String, Expressoes)> = Vec::new();
        let mut i: usize = 0;
        while i < n
            invariant
                n == self.modelo().len(),
                ordenada(self.modelo()),
                i <= n,
                r@.len() == i,
                forall|j: int|
                    0 <= j < i ==> {
                        &&& #[trigger] r@[j].0@ == self.modelo()[j].0
                        &&& r@[j].1@ == self.modelo()[j].1
                    },
            decreases n - i,
        {
            assert(self.modelo()[i as int] == (self.entradas@[i as int].0@, self.entradas@[i as int].1@));
            r.push((self.entradas[i].0.clone(), self.entradas[i].1.copia()));
            i = i + 1;
        }
        assert forall|j: int| 0 <= j < r@.len() implies {
            &&& #[trigger] r@[j].0@ == self.nomes_ordenados()[j]
            &&& self@.dom().contains(r@[j].0@)
            &&& r@[j].1@ == self@[r@[j].0@]
        } by {
            lemma_mapa_indice(self.modelo(), j);
        }
        r
    }

    /// The expressions shown when the window opens: those of the first
    /// profile in name order, unless there is none or its name is empty.
    pub fn campos_iniciais(&self) -> (r: Option<Expressoes>)
        ensures
            r is Some <==> self.nomes_ordenados().len() > 0 && self.nomes_ordenados()[0].len() > 0,
            r matches Some(e) ==> self@.dom().contains(self.nomes_ordenados()[0]) && e@ == self@[self.nomes_ordenados()[0]],
    {
        proof {
            use_type_invariant(self);
        }
        if self.entradas.len() == 0 {
            return None;
        }
        assert(self.nomes_ordenados()[0] == self.entradas@[0].0@);
        if self.entradas[0].0.as_str().is_empty() {
            return None;
        }
        proof {
            lemma_mapa_indice(self.modelo(), 0);
        }
        assert(self.modelo()[0].1 == self.entradas@[0].1@);
        Some(self.entradas[0].1.copia())
    }

    /// Stores `expressoes` under `nome`, replacing what was stored there.
    pub fn adiciona(&mut self, nome: String, expressoes: Expressoes)
        ensures
            final(self)@ == old(self)@.insert(nome@, expressoes@),
    {
        proof {
            use_type_invariant(&*self);
        }
        let (i, achou) = self.posicao(nome.as_str());
        let ghost m = self.modelo();
        let ghost x: Entrada = (nome@, expressoes@);
        if achou {
            proof {
                lemma_mapa_atualiza(m, i as int, x);
            }
            let mut v = Vec::new();
            std::mem::swap(&mut v, &mut self.entradas);
            v.set(i, (nome, expressoes));
            assert(v@.map_values(|e: (String, Expressoes)| (e.0@, e.1@)) =~= m.update(i as int, x));
            self.entradas = v;
            assert(self.modelo() =~= m.update(i as int, x));
        } else {
            proof {
                lemma_mapa_insere(m, i as int, x);
            }
            let mut v = Vec::new();
            std::mem::swap(&mut v, &mut self.entradas);
            v.insert(i, (nome, expressoes));
            assert(v@.map_values(|e: (String, Expressoes)| (e.0@, e.1@)) =~= m.insert(i as int, x));
            self.entradas = v;
            assert(self.modelo() =~= m.insert(i as int, x));
        }
    }

    /// Takes out the profile named `nome`, if there is one.
    pub fn remove(&mut self, nome: &str)
        ensures
            final(self)@ == old(self)@.remove(nome@),
    {
        proof {
            use_type_invariant(&*self);
        }
        let (i, achou) = self.posicao(nome);
        let ghost m = self.modelo();
        if achou {
            proof {
                lemma_mapa_remove(m, i as int);
            }
            let mut v = Vec::new();
            std::mem::swap(&mut v, &mut self.entradas);
            v.remove(i);
            assert(v@.map_values(|e: (String, Expressoes)| (e.0@, e.1@)) =~= m.remove(i as int));
            self.entradas = v;
            assert(self.modelo() =~= m.remove(i as int));
        } else {
            proof {
                if tem_chave(m, nome@) {
                    let j = choose|j: int| 0 <= j < m.len() && #[trigger] m[j].0 == nome@;
                    if j < i {
                        crate::ordem::lemma_precede_irreflexiva(nome@);
                    } else {
                        if j > i {
                            assert(precede(m[i as int].0, m[j].0));
                            crate::ordem::lemma_precede_transitiva(nome@, m[i as int].0, nome@);
                        }
                        crate::ordem::lemma_precede_irreflexiva(nome@);
                    }
                }
                assert(mapa(m).remove(nome@) =~= mapa(m));
            }
        }
    }
}

impl View for Perfis {
    type V = Map<Seq<char>, VistaExpressoes>;

    open spec fn view(&self) -> Map<Seq<char>, VistaExpressoes> {
        self.tabela()
    }
}

/// The profiles the program starts with when none were saved: UTM,
/// decimal degrees, degrees-minutes-seconds, and complete
/// degrees-minutes-seconds with sign.
pub fn popula_perfis() -> (r: Perfis)
    ensures
        r@ == Map::<Seq<char>, VistaExpressoes>::empty().insert(
            "UTM"@,
            (r"\d.\d{3}.\d{3},\d{1,3}"@, r" \d{3}.\d{3},\d{1,3}"@),
        ).insert("Decimal"@, (r"[+-]?[3-4]\d\.\d{6}"@, r"[+-]?[0-2]\d\.\d{6}"@)).insert(
            "Graus, minutos e segundos"@,
            (r"[0-2]\dS\s[0-5]\d'\s[0-5]\d"@, r"[3-7]\dW\s[0-5]\d'\s[0-5]\d"@),
        ).insert(
            "GMS Completo"@,
            (r#"[+-]?[0-2]\d°[0-9]\d'[0-9]\d,\d{3}""#@, r#"[+-]?[3-4]\d°[0-9]\d'[0-9]\d[,.]?\d{3}""#@),
        ),
{
    let utm = Expressoes::new(r"\d.\d{3}.\d{3},\d{1,3}", r" \d{3}.\d{3},\d{1,3}");
    let decimal = Expressoes::new(r"[+-]?[3-4]\d\.\d{6}", r"[+-]?[0-2]\d\.\d{6}");
    let gms = Expressoes::new(r"[0-2]\dS\s[0-5]\d'\s[0-5]\d", r"[3-7]\dW\s[0-5]\d'\s[0-5]\d");
    let gms_neg = Expressoes::new(
        r#"[+-]?[0-2]\d°[0-9]\d'[0-9]\d,\d{3}""#,
        r#"[+-]?[3-4]\d°[0-9]\d'[0-9]\d[,.]?\d{3}""#,
    );
    let mut perfis = Perfis::new();
    perfis.adiciona(String::from_str("UTM"), utm);
    perfis.adiciona(String::from_str("Decimal"), decimal);
    perfis.adiciona(String::from_str("Graus, minutos e segundos"), gms);
    perfis.adiciona(String::from_str("GMS Completo"), gms_neg);
    perfis
}

/// Stores a profile named `perfil_n` with the two given expressions,
/// replacing any profile of that name.
pub fn adiciona_perfil(perfil_n: String, latitude_n: &String, longitude_n: &String, perfis: &mut Perfis)
    ensures
        final(perfis)@ == old(perfis)@.insert(perfil_n@, (latitude_n@, longitude_n@)),
{
    let expressoes = Expressoes::new(latitude_n.as_str(), longitude_n.as_str());
    perfis.adiciona(perfil_n, expressoes);
}

/// Takes out the profile named `perfil_atual`, if there is one.
pub fn remove_perfil(perfil_atual: String, perfis: &mut Perfis)
    ensures
        final(perfis)@ == old(perfis)@.remove(perfil_atual@),
{
    perfis.remove(perfil_atual.as_str());
}

/// A new profile is accepted only when its name and both expressions are
/// filled in.
pub open spec fn cadastro_aceito(nome: Seq<char>, latitude: Seq<char>, longitude: Seq<char>) -> bool {
    nome.len() > 0 && latitude.len() > 0 && longitude.len() > 0
}

/// A registration is refused only for an empty name or an empty expression:
/// whatever characters a non-empty name holds, spaces among them, it is
/// accepted together with two non-empty expressions.
pub proof fn lei_cadastro_so_recusa_vazios(nome: Seq<char>, latitude: Seq<char>, longitude: Seq<char>)
    ensures
        cadastro_aceito(nome, latitude, longitude) <==> (nome.len() > 0 && latitude.len() > 0
            && longitude.len() > 0),
{
}

/// Registers a profile typed in by the user: stores it when its name and
/// both expressions are filled in, and otherwise leaves the table as it was.
/// Returns whether it was stored.
pub fn cadastra_perfil(perfis: &mut Perfis, nome: &str, latitude: &str, longitude: &str) -> (r: bool)
    ensures
        r == cadastro_aceito(nome@, latitude@, longitude@),
        r == (nome@.len() > 0 && latitude@.len() > 0 && longitude@.len() > 0),
        r ==> final(perfis)@ == old(perfis)@.insert(nome@, (latitude@, longitude@)),
        !r ==> final(perfis)@ == old(perfis)@,
{
    if latitude.is_empty() || longitude.is_empty() || nome.is_empty() {
        false
    } else {
        perfis.adiciona(String::from_str(nome), Expressoes::new(latitude, longitude));
        true
    }
}

/// A profile just stored is found under its name with the expressions stored.
pub proof fn lei_busca_apos_adiciona(tabela: Map<Seq<char>, VistaExpressoes>, nome: Seq<char>, e: VistaExpressoes)
    ensures
        tabela.insert(nome, e).dom().contains(nome),
        tabela.insert(nome, e)[nome] == e,
{
}

/// Storing a profile leaves every other name as it was.
pub proof fn lei_adiciona_preserva_outros(
    tabela: Map<Seq<char>, VistaExpressoes>,
    nome: Seq<char>,
    e: VistaExpressoes,
    outro: Seq<char>,
)
    requires
        outro != nome,
    ensures
        tabela.insert(nome, e).dom().contains(outro) == tabela.dom().contains(outro),
        tabela.dom().contains(outro) ==> tabela.insert(nome, e)[outro] == tabela[outro],
{
}

/// A profile just taken out is no longer found.
pub proof fn lei_busca_apos_remove(tabela: Map<Seq<char>, VistaExpressoes>, nome: Seq<char>)
    ensures
        !tabela.remove(nome).dom().contains(nome),
{
}

/// Taking out a profile that was just stored under a new name gives back the
/// table as it was.
pub proof fn lei_remove_desfaz_adiciona(tabela: Map<Seq<char>, VistaExpressoes>, nome: Seq<char>, e: VistaExpressoes)
    requires
        !tabela.dom().contains(nome),
    ensures
        tabela.insert(nome, e).remove(nome) == tabela,
{
    assert(tabela.insert(nome, e).remove(nome) =~= tabela);
}

} // verus!
